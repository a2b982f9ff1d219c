//! Process descriptions: program, arguments, environment and stdio settings,
//! built up before the process is spawned.
use vstd::prelude::*;
use crate::error::PlatformError;
use crate::text::{chars_eq, chars_of, lowercase_of, owned, str_eq, string_of, to_lowercase};
use crate::platform::Os;
use crate::path::{absolute, extension_chars, extension_of_name, file_name_chars, file_name_of, is_absolute_path, join_chars, joined, with_extension_chars, with_extension_of};
use core::time::Duration;

verus! {

/// Environment variables as (name, value) pairs, in insertion order.
pub open spec fn env_views(v: Seq<(String, String)>) -> Seq<(Seq<char>, Seq<char>)> {
    v.map_values(|p: (String, String)| (p.0@, p.1@))
}

/// Whether no name occurs twice.
pub open spec fn env_distinct(e: Seq<(Seq<char>, Seq<char>)>) -> bool {
    forall|i: int, j: int| 0 <= i < j < e.len() ==> #[trigger] e[i].0 != #[trigger] e[j].0
}

/// Position of `key` in the pairs, if any.
pub open spec fn env_index(e: Seq<(Seq<char>, Seq<char>)>, key: Seq<char>) -> Option<int>
    decreases e.len(),
{
    if e.len() == 0 {
        None
    } else if e.last().0 == key {
        Some(e.len() - 1)
    } else {
        env_index(e.drop_last(), key)
    }
}

/// Value bound to `key`, if any.
pub open spec fn env_lookup(e: Seq<(Seq<char>, Seq<char>)>, key: Seq<char>) -> Option<Seq<char>> {
    match env_index(e, key) {
        Some(i) => Some(e[i].1),
        None => None,
    }
}

/// Binding `key` to `value`: the existing pair is overwritten in place,
/// otherwise the pair is appended.
pub open spec fn env_insert(e: Seq<(Seq<char>, Seq<char>)>, key: Seq<char>, value: Seq<char>) -> Seq<(Seq<char>, Seq<char>)> {
    match env_index(e, key) {
        Some(i) => e.update(i, (key, value)),
        None => e.push((key, value)),
    }
}

pub proof fn lemma_env_index(e: Seq<(Seq<char>, Seq<char>)>, key: Seq<char>)
    ensures
        match env_index(e, key) {
            Some(i) => 0 <= i < e.len() && e[i].0 == key,
            None => forall|j: int| 0 <= j < e.len() ==> #[trigger] e[j].0 != key,
        },
    decreases e.len(),
{
    if e.len() > 0 && e.last().0 != key {
        lemma_env_index(e.drop_last(), key);
        if env_index(e.drop_last(), key).is_none() {
            assert forall|j: int| 0 <= j < e.len() implies #[trigger] e[j].0 != key by {
                if j < e.len() - 1 {
                    assert(e.drop_last()[j] == e[j]);
                }
            }
        }
    }
}

proof fn lemma_env_index_distinct(e: Seq<(Seq<char>, Seq<char>)>, i: int)
    requires
        env_distinct(e),
        0 <= i < e.len(),
    ensures
        env_index(e, e[i].0) == Some(i),
    decreases e.len(),
{
    if i < e.len() - 1 {
        assert(e.drop_last()[i] == e[i]);
        assert(env_distinct(e.drop_last()));
        lemma_env_index_distinct(e.drop_last(), i);
    }
}

/// After binding `key` to `value`, looking up `key` gives `value` and every
/// other name keeps its value; names stay distinct.
pub proof fn lemma_env_insert_lookup(e: Seq<(Seq<char>, Seq<char>)>, key: Seq<char>, value: Seq<char>, other: Seq<char>)
    requires
        env_distinct(e),
    ensures
        env_distinct(env_insert(e, key, value)),
        env_lookup(env_insert(e, key, value), key) == Some(value),
        other != key ==> env_lookup(env_insert(e, key, value), other) == env_lookup(e, other),
{
    lemma_env_index(e, key);
    let n = env_insert(e, key, value);
    assert(env_distinct(n));
    match env_index(e, key) {
        Some(i) => {
            lemma_env_index_distinct(n, i);
            lemma_env_index(e, other);
            if other != key {
                match env_index(e, other) {
                    Some(j) => {
                        lemma_env_index_distinct(e, j);
                        assert(n[j] == e[j]);
                        lemma_env_index_distinct(n, j);
                    },
                    None => {
                        lemma_env_index(n, other);
                        if env_index(n, other).is_some() {
                            let j = env_index(n, other).unwrap();
                            assert(n[j].0 == other);
                            assert(j != i);
                            assert(e[j] == n[j]);
                        }
                    },
                }
            }
        },
        None => {
            lemma_env_index_distinct(n, e.len() as int);
            lemma_env_index(e, other);
            if other != key {
                match env_index(e, other) {
                    Some(j) => {
                        lemma_env_index_distinct(e, j);
                        assert(n[j] == e[j]);
                        lemma_env_index_distinct(n, j);
                    },
                    None => {
                        lemma_env_index(n, other);
                        if env_index(n, other).is_some() {
                            let j = env_index(n, other).unwrap();
                            assert(n[j].0 == other);
                            assert(j < e.len());
                            assert(e[j] == n[j]);
                        }
                    },
                }
            }
        },
    }
}

/// Finds the position of `key` among the pairs.
fn find_env(v: &Vec<(String, String)>, key: &str) -> (r: Option<usize>)
    ensures
        match r {
            Some(i) => Some(i as int) == env_index(env_views(v@), key@) && i < v@.len(),
            None => env_index(env_views(v@), key@).is_none(),
        },
{
    let ghost e = env_views(v@);
    let mut k = v.len();
    assert(e.subrange(0, k as int) =~= e);
    while k > 0
        invariant
            k <= v@.len(),
            e == env_views(v@),
            env_index(e, key@) == env_index(e.subrange(0, k as int), key@),
        decreases k,
    {
        assert(e.subrange(0, k as int).last() == e[k - 1]);
        if str_eq(v[k - 1].0.as_str(), key) {
            return Some(k - 1);
        }
        assert(e.subrange(0, k as int).drop_last() =~= e.subrange(0, k - 1));
        k = k - 1;
    }
    None
}

/// Binds `key` to `value` in a list of pairs.
pub fn env_set(v: &mut Vec<(String, String)>, key: &str, value: &str)
    ensures
        env_views(final(v)@) == env_insert(env_views(old(v)@), key@, value@),
{
    let k = owned(key);
    let val = owned(value);
    match find_env(v, key) {
        Some(i) => {
            v.set(i, (k, val));
            assert(env_views(v@) =~= env_insert(env_views(old(v)@), key@, value@));
        },
        None => {
            v.push((k, val));
            assert(env_views(v@) =~= env_insert(env_views(old(v)@), key@, value@));
        },
    }
}

/// Value bound to `key` in a list of pairs.
pub fn env_get(v: &Vec<(String, String)>, key: &str) -> (r: Option<String>)
    ensures
        match r {
            Some(s) => env_lookup(env_views(v@), key@) == Some(s@),
            None => env_lookup(env_views(v@), key@).is_none(),
        },
{
    match find_env(v, key) {
        Some(i) => {
            let s = v[i].1.clone();
            assert(env_views(v@)[i as int].1 == v@[i as int].1@);
            Some(s)
        },
        None => None,
    }
}

/// Stdio configuration.
#[derive(Debug, Clone, Copy, PartialEq, Eq)]
pub enum StdioConfig {
    /// Inherit from parent.
    Inherit,
    /// Pipe for reading/writing.
    Pipe,
    /// Null device (/dev/null, NUL).
    Null,
}

/// Process builder with cross-platform support.
#[derive(Debug)]
pub struct ProcessBuilder {
    program: String,
    args: Vec<String>,
    cwd: Option<String>,
    env_override: Vec<(String, String)>,
    env_remove: Vec<String>,
    clear_env: bool,
    stdin: StdioConfig,
    stdout: StdioConfig,
    stderr: StdioConfig,
    new_process_group: bool,
    new_session: bool,
    timeout: Option<Duration>,
}

/// What a process builder describes.
pub struct ProcessSpec {
    pub program: Seq<char>,
    pub args: Seq<Seq<char>>,
    pub cwd: Option<Seq<char>>,
    pub env_override: Seq<(Seq<char>, Seq<char>)>,
    pub env_remove: Seq<Seq<char>>,
    pub clear_env: bool,
    pub stdin: StdioConfig,
    pub stdout: StdioConfig,
    pub stderr: StdioConfig,
    pub new_process_group: bool,
    pub new_session: bool,
    pub timeout: Option<Duration>,
}

/// Views of a vector of strings.
pub open spec fn string_views(v: Seq<String>) -> Seq<Seq<char>> {
    v.map_values(|x: String| x@)
}

impl View for ProcessBuilder {
    type V = ProcessSpec;

    closed spec fn view(&self) -> ProcessSpec {
        ProcessSpec {
            program: self.program@,
            args: string_views(self.args@),
            cwd: match self.cwd {
                Some(c) => Some(c@),
                None => None,
            },
            env_override: env_views(self.env_override@),
            env_remove: string_views(self.env_remove@),
            clear_env: self.clear_env,
            stdin: self.stdin,
            stdout: self.stdout,
            stderr: self.stderr,
            new_process_group: self.new_process_group,
            new_session: self.new_session,
            timeout: self.timeout,
        }
    }
}

impl ProcessBuilder {
    /// Names of the environment overrides never repeat.
    pub closed spec fn wf(&self) -> bool {
        env_distinct(env_views(self.env_override@))
    }

    /// Create a new process builder: no arguments, no working directory,
    /// environment inherited unchanged, all stdio inherited, no timeout.
    pub fn new(program: &str) -> (r: Self)
        ensures
            r.wf(),
            r@.program == program@,
            r@.args.len() == 0,
            r@.cwd.is_none(),
            r@.env_override.len() == 0,
            r@.env_remove.len() == 0,
            !r@.clear_env,
            r@.stdin == StdioConfig::Inherit && r@.stdout == StdioConfig::Inherit
                && r@.stderr == StdioConfig::Inherit,
            !r@.new_process_group && !r@.new_session,
            r@.timeout.is_none(),
    {
        let r = ProcessBuilder {
            program: owned(program),
            args: Vec::new(),
            cwd: None,
            env_override: Vec::new(),
            env_remove: Vec::new(),
            clear_env: false,
            stdin: StdioConfig::Inherit,
            stdout: StdioConfig::Inherit,
            stderr: StdioConfig::Inherit,
            new_process_group: false,
            new_session: false,
            timeout: None,
        };
        assert(r@.args =~= Seq::<Seq<char>>::empty());
        r
    }

    /// Add an argument.
    pub fn arg(self, arg: &str) -> (r: Self)
        ensures
            r@ == (ProcessSpec { args: self@.args.push(arg@), ..self@ }),
            self.wf() ==> r.wf(),
    {
        let mut s = self;
        s.args.push(owned(arg));
        assert(string_views(s.args@) =~= string_views(self.args@).push(arg@));
        s
    }

    /// Add multiple arguments, in order.
    pub fn args(self, args: &[&str]) -> (r: Self)
        ensures
            r@ == (ProcessSpec {
                args: self@.args + args@.map_values(|a: &str| a@),
                ..self@
            }),
            self.wf() ==> r.wf(),
    {
        let mut s = self;
        let mut i: usize = 0;
        while i < args.len()
            invariant
                i <= args@.len(),
                s@ == (ProcessSpec {
                    args: self@.args + args@.subrange(0, i as int).map_values(|a: &str| a@),
                    ..self@
                }),
                s.env_override == self.env_override,
            decreases args.len() - i,
        {
            let ghost before = s.args@;
            s.args.push(owned(args[i]));
            assert(string_views(s.args@) =~= string_views(before).push(args@[i as int]@));
            i = i + 1;
            assert(args@.subrange(0, i as int).map_values(|a: &str| a@)
                =~= args@.subrange(0, i - 1).map_values(|a: &str| a@).push(args@[i - 1]@));
            assert(s@.args =~= self@.args + args@.subrange(0, i as int).map_values(|a: &str| a@));
        }
        assert(args@.subrange(0, args@.len() as int) =~= args@);
        s
    }

    /// Set the working directory.
    pub fn cwd(self, dir: &str) -> (r: Self)
        ensures
            r@ == (ProcessSpec { cwd: Some(dir@), ..self@ }),
            self.wf() ==> r.wf(),
    {
        ProcessBuilder { cwd: Some(owned(dir)), ..self }
    }

    /// Set an environment variable; a later value for the same name replaces
    /// the earlier one.
    pub fn env(self, key: &str, value: &str) -> (r: Self)
        ensures
            r@ == (ProcessSpec { env_override: env_insert(self@.env_override, key@, value@), ..self@ }),
            self.wf() ==> r.wf(),
    {
        let mut s = self;
        env_set(&mut s.env_override, key, value);
        proof {
            if self.wf() {
                lemma_env_insert_lookup(self@.env_override, key@, value@, key@);
            }
        }
        s
    }

    /// Set several environment variables, in order.
    pub fn envs(self, vars: &[(&str, &str)]) -> (r: Self)
        ensures
            r@ == (ProcessSpec { env_override: env_insert_all(self@.env_override, vars@), ..self@ }),
            self.wf() ==> r.wf(),
    {
        let mut s = self;
        let mut i: usize = 0;
        while i < vars.len()
            invariant
                i <= vars@.len(),
                s@ == (ProcessSpec {
                    env_override: env_insert_all(self@.env_override, vars@.subrange(0, i as int)),
                    ..self@
                }),
                self.wf() ==> s.wf(),
            decreases vars.len() - i,
        {
            let (k, v) = vars[i];
            s = s.env(k, v);
            assert(vars@.subrange(0, i + 1).drop_last() =~= vars@.subrange(0, i as int));
            i = i + 1;
        }
        assert(vars@.subrange(0, vars@.len() as int) =~= vars@);
        s
    }

    /// Remove an environment variable from the child's environment.
    pub fn env_remove(self, key: &str) -> (r: Self)
        ensures
            r@ == (ProcessSpec { env_remove: self@.env_remove.push(key@), ..self@ }),
            self.wf() ==> r.wf(),
    {
        let mut s = self;
        s.env_remove.push(owned(key));
        assert(string_views(s.env_remove@) =~= string_views(self.env_remove@).push(key@));
        s
    }

    /// Clear all environment variables (start fresh).
    pub fn env_clear(self) -> (r: Self)
        ensures
            r@ == (ProcessSpec { clear_env: true, ..self@ }),
            self.wf() ==> r.wf(),
    {
        ProcessBuilder { clear_env: true, ..self }
    }

    /// Configure stdin.
    pub fn stdin(self, config: StdioConfig) -> (r: Self)
        ensures
            r@ == (ProcessSpec { stdin: config, ..self@ }),
            self.wf() ==> r.wf(),
    {
        ProcessBuilder { stdin: config, ..self }
    }

    /// Configure stdout.
    pub fn stdout(self, config: StdioConfig) -> (r: Self)
        ensures
            r@ == (ProcessSpec { stdout: config, ..self@ }),
            self.wf() ==> r.wf(),
    {
        ProcessBuilder { stdout: config, ..self }
    }

    /// Configure stderr.
    pub fn stderr(self, config: StdioConfig) -> (r: Self)
        ensures
            r@ == (ProcessSpec { stderr: config, ..self@ }),
            self.wf() ==> r.wf(),
    {
        ProcessBuilder { stderr: config, ..self }
    }

    /// Capture stdout and stderr through pipes.
    pub fn capture(self) -> (r: Self)
        ensures
            r@ == (ProcessSpec { stdout: StdioConfig::Pipe, stderr: StdioConfig::Pipe, ..self@ }),
            self.wf() ==> r.wf(),
    {
        ProcessBuilder { stdout: StdioConfig::Pipe, stderr: StdioConfig::Pipe, ..self }
    }

    /// Suppress all output.
    pub fn quiet(self) -> (r: Self)
        ensures
            r@ == (ProcessSpec { stdout: StdioConfig::Null, stderr: StdioConfig::Null, ..self@ }),
            self.wf() ==> r.wf(),
    {
        ProcessBuilder { stdout: StdioConfig::Null, stderr: StdioConfig::Null, ..self }
    }

    /// Create a new process group (Unix only).
    pub fn new_process_group(self) -> (r: Self)
        ensures
            r@ == (ProcessSpec { new_process_group: true, ..self@ }),
            self.wf() ==> r.wf(),
    {
        ProcessBuilder { new_process_group: true, ..self }
    }

    /// Create a new session (Unix only).
    pub fn new_session(self) -> (r: Self)
        ensures
            r@ == (ProcessSpec { new_session: true, ..self@ }),
            self.wf() ==> r.wf(),
    {
        ProcessBuilder { new_session: true, ..self }
    }

    /// Set execution timeout.
    pub fn timeout(self, duration: Duration) -> (r: Self)
        ensures
            r@ == (ProcessSpec { timeout: Some(duration), ..self@ }),
            self.wf() ==> r.wf(),
    {
        ProcessBuilder { timeout: Some(duration), ..self }
    }

    /// Program to run.
    pub fn program(&self) -> (r: &str)
        ensures
            r@ == self@.program,
    {
        self.program.as_str()
    }

    /// Arguments, in order.
    pub fn arguments(&self) -> (r: &Vec<String>)
        ensures
            string_views(r@) == self@.args,
    {
        &self.args
    }

    /// Working directory, if set.
    pub fn working_dir(&self) -> (r: Option<&String>)
        ensures
            match r {
                Some(d) => self@.cwd == Some(d@),
                None => self@.cwd.is_none(),
            },
    {
        match &self.cwd {
            Some(d) => Some(d),
            None => None,
        }
    }

    /// Environment overrides as (name, value) pairs.
    pub fn env_overrides(&self) -> (r: &Vec<(String, String)>)
        ensures
            env_views(r@) == self@.env_override,
    {
        &self.env_override
    }

    /// Value given to an environment variable, if any.
    pub fn env_value(&self, key: &str) -> (r: Option<String>)
        ensures
            match r {
                Some(s) => env_lookup(self@.env_override, key@) == Some(s@),
                None => env_lookup(self@.env_override, key@).is_none(),
            },
    {
        env_get(&self.env_override, key)
    }

    /// Environment variables removed from the child's environment.
    pub fn env_removals(&self) -> (r: &Vec<String>)
        ensures
            string_views(r@) == self@.env_remove,
    {
        &self.env_remove
    }

    /// Whether the environment is cleared.
    pub fn clears_env(&self) -> (r: bool)
        ensures
            r == self@.clear_env,
    {
        self.clear_env
    }

    /// Stdin, stdout and stderr configuration.
    pub fn stdio(&self) -> (r: (StdioConfig, StdioConfig, StdioConfig))
        ensures
            r == (self@.stdin, self@.stdout, self@.stderr),
    {
        (self.stdin, self.stdout, self.stderr)
    }

    /// Whether a new process group and a new session are requested.
    pub fn grouping(&self) -> (r: (bool, bool))
        ensures
            r == (self@.new_process_group, self@.new_session),
    {
        (self.new_process_group, self.new_session)
    }

    /// Execution timeout, if any.
    pub fn timeout_value(&self) -> (r: Option<Duration>)
        ensures
            r == self@.timeout,
    {
        self.timeout
    }
}

/// The pairs bound one after the other.
pub open spec fn env_insert_all(e: Seq<(Seq<char>, Seq<char>)>, vars: Seq<(&str, &str)>) -> Seq<(Seq<char>, Seq<char>)>
    decreases vars.len(),
{
    if vars.len() == 0 {
        e
    } else {
        env_insert(env_insert_all(e, vars.drop_last()), vars.last().0@, vars.last().1@)
    }
}

/// What the status check of a finished process reports: success when it
/// exited with code zero, otherwise a `ProcessFailed` error with its code
/// (`-1` when it had none, e.g. when a signal killed it) and its standard
/// error text.
pub fn status_result(success: bool, code: Option<i32>, stderr: &str) -> (r: Result<(), PlatformError>)
    ensures
        success <==> r is Ok,
        !success ==> (r matches Err(PlatformError::ProcessFailed { code: c, stderr: e })
            && c == (match code { Some(x) => x, None => -1i32 }) && e@ == stderr@),
{
    if success {
        Ok(())
    } else {
        let c = match code {
            Some(x) => x,
            None => -1,
        };
        Err(PlatformError::ProcessFailed { code: c, stderr: owned(stderr) })
    }
}

/// Milliseconds between two checks of a process that is waited for with a
/// timeout.
pub const WAIT_POLL_INTERVAL_MS: u64 = 10;

/// What to do after checking whether a process waited for with a timeout
/// has finished.
#[derive(Debug, Clone, Copy, PartialEq, Eq, Structural)]
pub enum WaitStep {
    /// The process finished: collect its output.
    Collect,
    /// The timeout has passed: kill the process and report a timeout.
    Kill,
    /// Sleep for the poll interval and check again.
    Sleep,
}

/// The next step of waiting for a process with a timeout, given whether
/// it has finished, the time waited so far and the timeout (both in
/// milliseconds): a running process is killed once the time waited
/// reaches the timeout.
pub fn wait_step(finished: bool, elapsed_ms: u128, timeout_ms: u128) -> (r: WaitStep)
    ensures
        r == (if finished {
            WaitStep::Collect
        } else if elapsed_ms >= timeout_ms {
            WaitStep::Kill
        } else {
            WaitStep::Sleep
        }),
{
    if finished {
        WaitStep::Collect
    } else if elapsed_ms >= timeout_ms {
        WaitStep::Kill
    } else {
        WaitStep::Sleep
    }
}

/// The file extensions that make a file executable on Windows.
pub open spec fn windows_executable_ext(ext: Seq<char>) -> bool {
    ext == "exe"@ || ext == "cmd"@ || ext == "bat"@ || ext == "com"@ || ext == "ps1"@
}

/// Whether a file counts as executable: it must be a regular file; on Unix
/// some execute bit of its mode must be set, on Windows its extension (in
/// lower case) must be one of `exe`, `cmd`, `bat`, `com` or `ps1`.
pub open spec fn executable_file(is_file: bool, mode: u32, path: Seq<char>, os: Os) -> bool {
    is_file && if os == Os::Windows {
        match file_name_of(path, os) {
            Some(name) => match extension_of_name(name) {
                Some(e) => windows_executable_ext(lowercase_of(e)),
                None => false,
            },
            None => false,
        }
    } else {
        mode & 0o111 != 0
    }
}

fn ext_is(e: &[char], lit: &str) -> (r: bool)
    ensures
        r == (e@ == lit@),
{
    let l = chars_of(lit);
    chars_eq(e, l.as_slice())
}

/// Check if a path is executable, from its metadata: whether it is a
/// regular file and its permission mode.
pub fn is_executable(path: &str, is_file: bool, mode: u32, os: &Os) -> (r: bool)
    ensures
        r == executable_file(is_file, mode, path@, *os),
{
    if !is_file {
        return false;
    }
    if *os == Os::Windows {
        let p = chars_of(path);
        match file_name_chars(p.as_slice(), os) {
            Some(name) => match extension_chars(name.as_slice()) {
                Some(e) => {
                    let text = string_of(e.as_slice());
                    let low = to_lowercase(text.as_str());
                    let l = chars_of(low.as_str());
                    let s = l.as_slice();
                    ext_is(s, "exe") || ext_is(s, "cmd") || ext_is(s, "bat") || ext_is(s, "com")
                        || ext_is(s, "ps1")
                },
                None => false,
            },
            None => false,
        }
    } else {
        mode & 0o111 != 0
    }
}

/// The extensions tried for a program name on Windows, in order.
pub open spec fn windows_program_exts() -> Seq<Seq<char>> {
    seq![seq!['e', 'x', 'e'], seq!['c', 'm', 'd'], seq!['b', 'a', 't'], seq!['c', 'o', 'm']]
}

/// The candidates for a program in one directory of the search path: the
/// joined path, and on Windows that path with each executable extension.
pub open spec fn dir_candidates(dir: Seq<char>, program: Seq<char>, os: Os) -> Seq<Seq<char>> {
    let full = joined(dir, program, os);
    if os == Os::Windows {
        seq![full] + windows_program_exts().map_values(|e: Seq<char>| with_extension_of(full, e, os))
    } else {
        seq![full]
    }
}

/// The candidates for a program in a list of directories, in order.
pub open spec fn path_candidates(dirs: Seq<Seq<char>>, program: Seq<char>, os: Os) -> Seq<Seq<char>>
    decreases dirs.len(),
{
    if dirs.len() == 0 {
        Seq::empty()
    } else {
        path_candidates(dirs.drop_last(), program, os) + dir_candidates(dirs.last(), program, os)
    }
}

/// The files `which` tries for a program, in order: an absolute program is
/// tried alone; otherwise each directory of the search path is tried in
/// turn. The first candidate that is executable is the answer.
pub open spec fn which_plan(program: Seq<char>, dirs: Seq<Seq<char>>, os: Os) -> Seq<Seq<char>> {
    if absolute(program, os) {
        seq![program]
    } else {
        path_candidates(dirs, program, os)
    }
}

fn push_text(out: &mut Vec<String>, t: Vec<char>)
    ensures
        string_views(final(out)@) == string_views(old(out)@).push(t@),
{
    let ghost before = out@;
    out.push(string_of(t.as_slice()));
    assert(string_views(out@) =~= string_views(before).push(t@));
}

/// The files to try for a program, given the directories of the search
/// path.
pub fn which_candidates(program: &str, dirs: &[String], os: &Os) -> (r: Vec<String>)
    ensures
        string_views(r@) == which_plan(program@, string_views(dirs@), *os),
{
    let prog = chars_of(program);
    let mut out: Vec<String> = Vec::new();
    if is_absolute_path(prog.as_slice(), os) {
        out.push(owned(program));
        assert(string_views(out@) =~= seq![program@]);
        return out;
    }
    let ghost ds = string_views(dirs@);
    let exts: Vec<Vec<char>> = vec![vec!['e', 'x', 'e'], vec!['c', 'm', 'd'], vec!['b', 'a', 't'], vec!['c', 'o', 'm']];
    assert(exts@[0]@ =~= seq!['e', 'x', 'e']);
    assert(exts@[1]@ =~= seq!['c', 'm', 'd']);
    assert(exts@[2]@ =~= seq!['b', 'a', 't']);
    assert(exts@[3]@ =~= seq!['c', 'o', 'm']);
    let mut i: usize = 0;
    while i < dirs.len()
        invariant
            i <= dirs@.len(),
            ds == string_views(dirs@),
            prog@ == program@,
            exts@.len() == 4,
            forall|k: int| 0 <= k < 4 ==> #[trigger] exts@[k]@ == windows_program_exts()[k],
            string_views(out@) == path_candidates(ds.subrange(0, i as int), program@, *os),
        decreases dirs.len() - i,
    {
        let d = chars_of(dirs[i].as_str());
        let full = join_chars(d.as_slice(), prog.as_slice(), os);
        let ghost before = string_views(out@);
        push_text(&mut out, full.clone());
        if *os == Os::Windows {
            let mut k: usize = 0;
            while k < exts.len()
                invariant
                    k <= 4,
                    exts@.len() == 4,
                    forall|m: int| 0 <= m < 4 ==> #[trigger] exts@[m]@ == windows_program_exts()[m],
                    *os == Os::Windows,
                    string_views(out@) == before + seq![full@] + windows_program_exts().subrange(0, k as int).map_values(
                        |e: Seq<char>| with_extension_of(full@, e, *os),
                    ),
                decreases exts.len() - k,
            {
                let w = with_extension_chars(full.as_slice(), exts[k].as_slice(), os);
                push_text(&mut out, w);
                k = k + 1;
                assert(windows_program_exts().subrange(0, k as int).map_values(
                    |e: Seq<char>| with_extension_of(full@, e, *os),
                ) =~= windows_program_exts().subrange(0, k - 1).map_values(
                    |e: Seq<char>| with_extension_of(full@, e, *os),
                ).push(with_extension_of(full@, windows_program_exts()[k - 1], *os)));
            }
            assert(windows_program_exts().subrange(0, 4) =~= windows_program_exts());
        }
        assert(ds.subrange(0, i + 1).drop_last() =~= ds.subrange(0, i as int));
        assert(ds[i as int] == d@);
        i = i + 1;
        assert(string_views(out@) =~= path_candidates(ds.subrange(0, i as int), program@, *os));
    }
    assert(ds.subrange(0, dirs@.len() as int) =~= ds);
    out
}

} // verus!
