//! Shell kinds, shell command descriptions and the quoting rules of each shell.
use vstd::prelude::*;
use crate::platform::{Os, Platform};
use crate::text::{join_with, 
    alphanumeric, chars_of, contains_chars, contains_seq, ends_with, ends_with_chars, is_alphanumeric,
    owned, push_all, push_str, split_words, starts_with, starts_with_chars, string_of, trim, trim_chars,
    views, words,
};
use core::time::Duration;
use crate::error::{push_signed, signed_dec, PlatformError};
use crate::process::{
    env_distinct, env_insert, env_set, env_views, lemma_env_insert_lookup, ProcessBuilder, ProcessSpec,
    StdioConfig,
};

verus! {

/// Shell types supported across platforms.
#[derive(Debug, Clone, Copy, PartialEq, Eq, Hash)]
pub enum ShellType {
    /// Bourne shell (sh).
    Sh,
    /// Bourne-again shell (bash).
    Bash,
    /// Z shell (zsh).
    Zsh,
    /// Fish shell.
    Fish,
    /// Windows Command Prompt.
    Cmd,
    /// `PowerShell` (Windows or cross-platform).
    PowerShell,
    /// `PowerShell` Core (cross-platform).
    Pwsh,
}

/// Shell named by the value of the `SHELL` variable on a Unix system.
pub open spec fn unix_shell_of(shell_var: Option<Seq<char>>) -> ShellType {
    match shell_var {
        Some(v) => if contains_seq(v, "zsh"@) {
            ShellType::Zsh
        } else if contains_seq(v, "fish"@) {
            ShellType::Fish
        } else {
            ShellType::Bash
        },
        None => ShellType::Bash,
    }
}

/// Default shell of an operating system, given the `SHELL` variable.
pub open spec fn default_shell_of(os: Os, shell_var: Option<Seq<char>>) -> ShellType {
    match os {
        Os::Windows => ShellType::Cmd,
        Os::Linux | Os::MacOs => unix_shell_of(shell_var),
        Os::Unknown => ShellType::Sh,
    }
}

/// Executable name of a shell.
pub open spec fn executable_of(s: ShellType) -> Seq<char> {
    match s {
        ShellType::Sh => "sh"@,
        ShellType::Bash => "bash"@,
        ShellType::Zsh => "zsh"@,
        ShellType::Fish => "fish"@,
        ShellType::Cmd => "cmd.exe"@,
        ShellType::PowerShell => "powershell.exe"@,
        ShellType::Pwsh => "pwsh"@,
    }
}

/// Flag that makes a shell run a command string.
pub open spec fn command_flag_of(s: ShellType) -> Seq<char> {
    match s {
        ShellType::Sh | ShellType::Bash | ShellType::Zsh | ShellType::Fish => "-c"@,
        ShellType::Cmd => "/C"@,
        ShellType::PowerShell | ShellType::Pwsh => "-Command"@,
    }
}

/// Whether a shell is one of the Unix shells.
pub open spec fn is_unix_shell(s: ShellType) -> bool {
    s == ShellType::Sh || s == ShellType::Bash || s == ShellType::Zsh || s == ShellType::Fish
}

/// How a shell refers to an environment variable.
pub open spec fn env_syntax_of(s: ShellType, name: Seq<char>) -> Seq<char> {
    if is_unix_shell(s) {
        "$"@ + name
    } else if s == ShellType::Cmd {
        "%"@ + name + "%"@
    } else {
        "$env:"@ + name
    }
}

impl ShellType {
    /// Detect the default shell for an operating system. On Linux and macOS the
    /// value of the `SHELL` environment variable, if set, is searched for
    /// `zsh`, `fish` and `bash` in that order; bash is the fallback.
    pub fn detect(os: &Os, shell_var: Option<&str>) -> (r: Self)
        ensures
            r == default_shell_of(*os, match shell_var { Some(v) => Some(v@), None => None }),
    {
        match os {
            Os::Windows => ShellType::Cmd,
            Os::Linux | Os::MacOs => Self::detect_unix_shell(shell_var),
            Os::Unknown => ShellType::Sh,
        }
    }

    /// Shell named by the `SHELL` variable of a Unix system.
    fn detect_unix_shell(shell_var: Option<&str>) -> (r: Self)
        ensures
            r == unix_shell_of(match shell_var { Some(v) => Some(v@), None => None }),
    {
        match shell_var {
            Some(v) => {
                let c = chars_of(v);
                let zsh = chars_of("zsh");
                let fish = chars_of("fish");
                let bash = chars_of("bash");
                if contains_chars(c.as_slice(), zsh.as_slice()) {
                    ShellType::Zsh
                } else if contains_chars(c.as_slice(), fish.as_slice()) {
                    ShellType::Fish
                } else if contains_chars(c.as_slice(), bash.as_slice()) {
                    ShellType::Bash
                } else {
                    ShellType::Bash
                }
            },
            None => ShellType::Bash,
        }
    }

    /// Get the shell executable name.
    pub fn executable(&self) -> (r: &'static str)
        ensures
            r@ == executable_of(*self),
    {
        match self {
            ShellType::Sh => "sh",
            ShellType::Bash => "bash",
            ShellType::Zsh => "zsh",
            ShellType::Fish => "fish",
            ShellType::Cmd => "cmd.exe",
            ShellType::PowerShell => "powershell.exe",
            ShellType::Pwsh => "pwsh",
        }
    }

    /// Get the command flag for executing a command string.
    pub fn command_flag(&self) -> (r: &'static str)
        ensures
            r@ == command_flag_of(*self),
    {
        match self {
            ShellType::Sh | ShellType::Bash | ShellType::Zsh => "-c",
            ShellType::Fish => "-c",
            ShellType::Cmd => "/C",
            ShellType::PowerShell | ShellType::Pwsh => "-Command",
        }
    }

    /// Check if this is a Unix shell.
    pub fn is_unix(&self) -> (r: bool)
        ensures
            r == is_unix_shell(*self),
    {
        match self {
            ShellType::Sh | ShellType::Bash | ShellType::Zsh | ShellType::Fish => true,
            _ => false,
        }
    }

    /// Check if this is a Windows shell.
    pub fn is_windows(&self) -> (r: bool)
        ensures
            r == !is_unix_shell(*self),
    {
        match self {
            ShellType::Cmd | ShellType::PowerShell | ShellType::Pwsh => true,
            _ => false,
        }
    }

    /// Get the comment prefix for this shell.
    pub fn comment_prefix(&self) -> (r: &'static str)
        ensures
            r@ == (if *self == ShellType::Cmd { "REM"@ } else { "#"@ }),
    {
        match self {
            ShellType::Sh | ShellType::Bash | ShellType::Zsh | ShellType::Fish | ShellType::Pwsh => "#",
            ShellType::Cmd => "REM",
            ShellType::PowerShell => "#",
        }
    }

    /// Get the environment variable syntax for this shell.
    pub fn env_syntax(&self, name: &str) -> (r: String)
        ensures
            r@ == env_syntax_of(*self, name@),
    {
        let mut v: Vec<char> = Vec::new();
        match self {
            ShellType::Sh | ShellType::Bash | ShellType::Zsh | ShellType::Fish => {
                push_str(&mut v, "$");
                push_str(&mut v, name);
            },
            ShellType::Cmd => {
                push_str(&mut v, "%");
                push_str(&mut v, name);
                push_str(&mut v, "%");
            },
            ShellType::PowerShell | ShellType::Pwsh => {
                push_str(&mut v, "$env:");
                push_str(&mut v, name);
            },
        }
        string_of(v.as_slice())
    }

    /// Get the path-list separator for this shell.
    pub fn path_separator(&self) -> (r: char)
        ensures
            r == (if *self == ShellType::Cmd || *self == ShellType::PowerShell { ';' } else { ':' }),
    {
        match self {
            ShellType::Sh | ShellType::Bash | ShellType::Zsh | ShellType::Fish | ShellType::Pwsh => ':',
            ShellType::Cmd | ShellType::PowerShell => ';',
        }
    }
}


/// Each character of `s` replaced by `f` of it, concatenated.
pub open spec fn flat_map_chars(s: Seq<char>, f: spec_fn(char) -> Seq<char>) -> Seq<char>
    decreases s.len(),
{
    if s.len() == 0 {
        Seq::empty()
    } else {
        flat_map_chars(s.drop_last(), f) + f(s.last())
    }
}

/// Characters that need no quoting in a POSIX shell.
pub open spec fn posix_plain(c: char) -> bool {
    alphanumeric(c) || c == '-' || c == '_' || c == '.' || c == '/'
}

/// Characters that need no quoting for cmd.exe or `PowerShell`.
pub open spec fn windows_plain(c: char) -> bool {
    alphanumeric(c) || c == '-' || c == '_' || c == '.' || c == '\\'
}

/// Inside POSIX single quotes a quote is written as `'\''`.
pub open spec fn posix_quote_char(c: char) -> Seq<char> {
    if c == '\'' { seq!['\'', '\\', '\'', '\''] } else { seq![c] }
}

/// cmd.exe escapes `^ & < > |` with a caret and doubles `%`.
pub open spec fn cmd_quote_char(c: char) -> Seq<char> {
    if c == '^' || c == '&' || c == '<' || c == '>' || c == '|' {
        seq!['^', c]
    } else if c == '%' {
        seq!['%', '%']
    } else {
        seq![c]
    }
}

/// Inside `PowerShell` single quotes a quote is doubled.
pub open spec fn powershell_quote_char(c: char) -> Seq<char> {
    if c == '\'' { seq!['\'', '\''] } else { seq![c] }
}

/// A POSIX shell argument: unchanged when every character is plain,
/// otherwise single-quoted.
pub open spec fn escape_posix(s: Seq<char>) -> Seq<char> {
    if forall|i: int| 0 <= i < s.len() ==> posix_plain(#[trigger] s[i]) {
        s
    } else {
        seq!['\''] + flat_map_chars(s, |c: char| posix_quote_char(c)) + seq!['\'']
    }
}

/// A cmd.exe argument: unchanged when every character is plain, otherwise
/// escaped and double-quoted.
pub open spec fn escape_cmd(s: Seq<char>) -> Seq<char> {
    if forall|i: int| 0 <= i < s.len() ==> windows_plain(#[trigger] s[i]) {
        s
    } else {
        seq!['"'] + flat_map_chars(s, |c: char| cmd_quote_char(c)) + seq!['"']
    }
}

/// A `PowerShell` argument: unchanged when every character is plain,
/// otherwise single-quoted.
pub open spec fn escape_powershell(s: Seq<char>) -> Seq<char> {
    if forall|i: int| 0 <= i < s.len() ==> windows_plain(#[trigger] s[i]) {
        s
    } else {
        seq!['\''] + flat_map_chars(s, |c: char| powershell_quote_char(c)) + seq!['\'']
    }
}

/// An argument escaped for a shell.
pub open spec fn escape_for(s: Seq<char>, shell: ShellType) -> Seq<char> {
    if is_unix_shell(shell) {
        escape_posix(s)
    } else if shell == ShellType::Cmd {
        escape_cmd(s)
    } else {
        escape_powershell(s)
    }
}


/// Which quoting rule of the three applies.
enum QuoteRule {
    Posix,
    Cmd,
    PowerShell,
}

spec fn quote_char_by(rule: QuoteRule, c: char) -> Seq<char> {
    match rule {
        QuoteRule::Posix => posix_quote_char(c),
        QuoteRule::Cmd => cmd_quote_char(c),
        QuoteRule::PowerShell => powershell_quote_char(c),
    }
}

spec fn plain_by(rule: QuoteRule, c: char) -> bool {
    match rule {
        QuoteRule::Posix => posix_plain(c),
        _ => windows_plain(c),
    }
}

fn is_plain(rule: &QuoteRule, c: char) -> (r: bool)
    ensures
        r == plain_by(*rule, c),
{
    let a = is_alphanumeric(c);
    match rule {
        QuoteRule::Posix => a || c == '-' || c == '_' || c == '.' || c == '/',
        _ => a || c == '-' || c == '_' || c == '.' || c == '\\',
    }
}

fn push_quoted(rule: &QuoteRule, out: &mut Vec<char>, c: char)
    ensures
        final(out)@ == old(out)@ + quote_char_by(*rule, c),
{
    match rule {
        QuoteRule::Posix => {
            if c == '\'' {
                out.push('\'');
                out.push('\\');
                out.push('\'');
                out.push('\'');
            } else {
                out.push(c);
            }
        },
        QuoteRule::Cmd => {
            if c == '^' || c == '&' || c == '<' || c == '>' || c == '|' {
                out.push('^');
                out.push(c);
            } else if c == '%' {
                out.push('%');
                out.push('%');
            } else {
                out.push(c);
            }
        },
        QuoteRule::PowerShell => {
            if c == '\'' {
                out.push('\'');
                out.push('\'');
            } else {
                out.push(c);
            }
        },
    }
    assert(final(out)@ =~= old(out)@ + quote_char_by(*rule, c));
}

/// Escapes `arg` under `rule`, quoting with `quote` when a character is not plain.
fn escape_with(rule: QuoteRule, quote: char, arg: &str) -> (r: Vec<char>)
    ensures
        r@ == (if forall|i: int| 0 <= i < arg@.len() ==> plain_by(rule, #[trigger] arg@[i]) {
            arg@
        } else {
            seq![quote] + flat_map_chars(arg@, |c: char| quote_char_by(rule, c)) + seq![quote]
        }),
{
    let s = chars_of(arg);
    let mut i: usize = 0;
    let mut plain = true;
    while i < s.len()
        invariant
            i <= s@.len(),
            plain == (forall|j: int| 0 <= j < i ==> plain_by(rule, #[trigger] s@[j])),
        decreases s.len() - i,
    {
        let p = is_plain(&rule, s[i]);
        plain = plain && p;
        i = i + 1;
    }
    if plain {
        return s;
    }
    let mut out: Vec<char> = Vec::new();
    out.push(quote);
    let mut k: usize = 0;
    while k < s.len()
        invariant
            k <= s@.len(),
            out@ == seq![quote] + flat_map_chars(s@.subrange(0, k as int), |c: char| quote_char_by(rule, c)),
        decreases s.len() - k,
    {
        push_quoted(&rule, &mut out, s[k]);
        assert(s@.subrange(0, k + 1).drop_last() =~= s@.subrange(0, k as int));
        k = k + 1;
    }
    assert(s@.subrange(0, s@.len() as int) =~= s@);
    out.push(quote);
    out
}

fn escape_posix_shell_arg(arg: &str) -> (r: Vec<char>)
    ensures
        r@ == escape_posix(arg@),
{
    let r = escape_with(QuoteRule::Posix, '\'', arg);
    assert(flat_map_chars(arg@, |c: char| quote_char_by(QuoteRule::Posix, c))
        == flat_map_chars(arg@, |c: char| posix_quote_char(c))) by {
        assert((|c: char| quote_char_by(QuoteRule::Posix, c)) =~= (|c: char| posix_quote_char(c)));
    }
    r
}

fn escape_cmd_arg(arg: &str) -> (r: Vec<char>)
    ensures
        r@ == escape_cmd(arg@),
{
    let r = escape_with(QuoteRule::Cmd, '"', arg);
    assert(flat_map_chars(arg@, |c: char| quote_char_by(QuoteRule::Cmd, c))
        == flat_map_chars(arg@, |c: char| cmd_quote_char(c))) by {
        assert((|c: char| quote_char_by(QuoteRule::Cmd, c)) =~= (|c: char| cmd_quote_char(c)));
    }
    r
}

fn escape_powershell_arg(arg: &str) -> (r: Vec<char>)
    ensures
        r@ == escape_powershell(arg@),
{
    let r = escape_with(QuoteRule::PowerShell, '\'', arg);
    assert(flat_map_chars(arg@, |c: char| quote_char_by(QuoteRule::PowerShell, c))
        == flat_map_chars(arg@, |c: char| powershell_quote_char(c))) by {
        assert((|c: char| quote_char_by(QuoteRule::PowerShell, c)) =~= (|c: char| powershell_quote_char(c)));
    }
    r
}

fn escape_chars(arg: &str, shell: ShellType) -> (r: Vec<char>)
    ensures
        r@ == escape_for(arg@, shell),
{
    match shell {
        ShellType::Sh | ShellType::Bash | ShellType::Zsh | ShellType::Fish => escape_posix_shell_arg(arg),
        ShellType::Cmd => escape_cmd_arg(arg),
        ShellType::PowerShell | ShellType::Pwsh => escape_powershell_arg(arg),
    }
}

/// Escape a string for use as one argument of a shell command line.
pub fn escape_shell_arg(arg: &str, shell: ShellType) -> (r: String)
    ensures
        r@ == escape_for(arg@, shell),
{
    let v = escape_chars(arg, shell);
    string_of(v.as_slice())
}

/// Join arguments for a shell command line: each argument escaped, separated
/// by single spaces.
pub fn join_args(args: &[&str], shell: ShellType) -> (r: String)
    ensures
        r@ == join_with(args@.map_values(|a: &str| escape_for(a@, shell)), seq![' ']),
{
    let ghost escaped = args@.map_values(|a: &str| escape_for(a@, shell));
    let mut out: Vec<char> = Vec::new();
    let mut i: usize = 0;
    while i < args.len()
        invariant
            i <= args@.len(),
            escaped == args@.map_values(|a: &str| escape_for(a@, shell)),
            out@ == join_with(escaped.subrange(0, i as int), seq![' ']),
        decreases args.len() - i,
    {
        let e = escape_chars(args[i], shell);
        assert(escaped.subrange(0, i + 1).drop_last() =~= escaped.subrange(0, i as int));
        if i > 0 {
            out.push(' ');
        } else {
            assert(escaped.subrange(0, 0) =~= Seq::<Seq<char>>::empty());
        }
        push_all(&mut out, e.as_slice());
        i = i + 1;
        assert(out@ =~= join_with(escaped.subrange(0, i as int), seq![' ']));
    }
    assert(escaped.subrange(0, args@.len() as int) =~= escaped);
    string_of(out.as_slice())
}

/// How a POSIX shell reads a word: outside quotes a backslash takes the
/// next character literally and a single quote opens a quoted part; inside
/// a quoted part every character up to the next single quote is literal.
pub open spec fn posix_read(t: Seq<char>, quoted: bool) -> Seq<char>
    decreases t.len(),
{
    if t.len() == 0 {
        Seq::empty()
    } else if quoted {
        if t[0] == '\'' {
            posix_read(t.drop_first(), false)
        } else {
            seq![t[0]] + posix_read(t.drop_first(), true)
        }
    } else if t[0] == '\'' {
        posix_read(t.drop_first(), true)
    } else if t[0] == '\\' && t.len() >= 2 {
        seq![t[1]] + posix_read(t.subrange(2, t.len() as int), false)
    } else {
        seq![t[0]] + posix_read(t.drop_first(), false)
    }
}

/// How `PowerShell` reads a single-quoted string: inside the quotes two
/// quotes stand for one and a lone quote ends the string.
pub open spec fn powershell_read(t: Seq<char>, quoted: bool) -> Seq<char>
    decreases t.len(),
{
    if t.len() == 0 {
        Seq::empty()
    } else if quoted {
        if t[0] == '\'' && t.len() >= 2 && t[1] == '\'' {
            seq!['\''] + powershell_read(t.subrange(2, t.len() as int), true)
        } else if t[0] == '\'' {
            powershell_read(t.drop_first(), false)
        } else {
            seq![t[0]] + powershell_read(t.drop_first(), true)
        }
    } else if t[0] == '\'' {
        powershell_read(t.drop_first(), true)
    } else {
        seq![t[0]] + powershell_read(t.drop_first(), false)
    }
}

proof fn lemma_posix_quoted_chars(s: Seq<char>, rest: Seq<char>)
    ensures
        posix_read(flat_map_chars(s, |c: char| posix_quote_char(c)) + rest, true) == s + posix_read(rest, true),
    decreases s.len(),
{
    let q = |c: char| posix_quote_char(c);
    if s.len() == 0 {
        assert(flat_map_chars(s, q) + rest =~= rest);
        assert(s + posix_read(rest, true) =~= posix_read(rest, true));
    } else {
        let c = s.last();
        let tail = q(c) + rest;
        assert(flat_map_chars(s, q) + rest =~= flat_map_chars(s.drop_last(), q) + tail);
        lemma_posix_quoted_chars(s.drop_last(), tail);
        if c == '\'' {
            let t1 = tail.drop_first();
            let t2 = seq!['\''] + rest;
            assert(tail[0] == '\'');
            assert(t1 =~= seq!['\\', '\'', '\''] + rest);
            assert(t1[0] == '\\' && t1[1] == '\'');
            assert(t1.subrange(2, t1.len() as int) =~= t2);
            assert(t2[0] == '\'');
            assert(t2.drop_first() =~= rest);
            assert(posix_read(t2, false) == posix_read(rest, true));
            assert(posix_read(t1, false) == seq!['\''] + posix_read(t2, false));
            assert(posix_read(tail, true) == posix_read(t1, false));
        } else {
            assert(tail[0] == c);
            assert(tail.drop_first() =~= rest);
        }
        assert(posix_read(tail, true) == seq![c] + posix_read(rest, true));
        assert(s.drop_last() + (seq![c] + posix_read(rest, true)) =~= s + posix_read(rest, true));
    }
}

proof fn lemma_powershell_quoted_chars(s: Seq<char>, rest: Seq<char>)
    ensures
        powershell_read(flat_map_chars(s, |c: char| powershell_quote_char(c)) + rest, true) == s
            + powershell_read(rest, true),
    decreases s.len(),
{
    let q = |c: char| powershell_quote_char(c);
    if s.len() == 0 {
        assert(flat_map_chars(s, q) + rest =~= rest);
        assert(s + powershell_read(rest, true) =~= powershell_read(rest, true));
    } else {
        let c = s.last();
        let tail = q(c) + rest;
        assert(flat_map_chars(s, q) + rest =~= flat_map_chars(s.drop_last(), q) + tail);
        lemma_powershell_quoted_chars(s.drop_last(), tail);
        if c == '\'' {
            assert(tail.subrange(2, tail.len() as int) =~= rest);
        } else {
            assert(tail.drop_first() =~= rest);
        }
        assert(powershell_read(tail, true) == seq![c] + powershell_read(rest, true));
        assert(s.drop_last() + (seq![c] + powershell_read(rest, true)) =~= s + powershell_read(rest, true));
    }
}

/// Escaping for a POSIX shell keeps an argument whose characters are all
/// plain; any other argument is single-quoted so that the shell reads it
/// back as it was.
pub proof fn lemma_posix_escape_reads_back(s: Seq<char>)
    ensures
        escape_posix(s) == s && (forall|i: int| 0 <= i < s.len() ==> posix_plain(#[trigger] s[i]))
            || posix_read(escape_posix(s), false) == s,
{
    if !(forall|i: int| 0 <= i < s.len() ==> posix_plain(#[trigger] s[i])) {
        let q = |c: char| posix_quote_char(c);
        let body = flat_map_chars(s, q);
        let e = seq!['\''] + body + seq!['\''];
        assert(e.drop_first() =~= body + seq!['\'']);
        lemma_posix_quoted_chars(s, seq!['\'']);
        assert(posix_read(seq!['\''], true) =~= Seq::<char>::empty()) by {
            let one = seq!['\''];
            assert(one[0] == '\'');
            assert(one.drop_first() =~= Seq::<char>::empty());
            assert(posix_read(one.drop_first(), false) == Seq::<char>::empty());
        }
        assert(s + Seq::<char>::empty() =~= s);
    }
}

/// Escaping for `PowerShell` keeps an argument whose characters are all
/// plain; any other argument is single-quoted so that `PowerShell` reads it
/// back as it was.
pub proof fn lemma_powershell_escape_reads_back(s: Seq<char>)
    ensures
        escape_powershell(s) == s && (forall|i: int| 0 <= i < s.len() ==> windows_plain(#[trigger] s[i]))
            || powershell_read(escape_powershell(s), false) == s,
{
    if !(forall|i: int| 0 <= i < s.len() ==> windows_plain(#[trigger] s[i])) {
        let q = |c: char| powershell_quote_char(c);
        let body = flat_map_chars(s, q);
        let e = seq!['\''] + body + seq!['\''];
        assert(e.drop_first() =~= body + seq!['\'']);
        lemma_powershell_quoted_chars(s, seq!['\'']);
        assert(powershell_read(seq!['\''], true) =~= Seq::<char>::empty()) by {
            let one = seq!['\''];
            assert(one[0] == '\'' && one.len() == 1);
            assert(one.drop_first() =~= Seq::<char>::empty());
            assert(powershell_read(one.drop_first(), false) == Seq::<char>::empty());
        }
        assert(s + Seq::<char>::empty() =~= s);
    }
}

/// How cmd.exe reads an escaped argument: double quotes are dropped, a
/// caret takes the next character literally, `%%` stands for one `%`. A
/// lone `%` would start a variable expansion, and a bare `&`, `<`, `>` or
/// `|` a redirection or another command: those texts (and a trailing
/// caret) do not read back as a plain argument (`None`).
pub open spec fn cmd_read(t: Seq<char>) -> Option<Seq<char>>
    decreases t.len(),
{
    if t.len() == 0 {
        Some(Seq::empty())
    } else if t[0] == '"' {
        cmd_read(t.drop_first())
    } else if t[0] == '^' || t[0] == '%' {
        if t.len() >= 2 && (t[0] == '^' || t[1] == '%') {
            match cmd_read(t.subrange(2, t.len() as int)) {
                Some(r) => Some(seq![t[1]] + r),
                None => None,
            }
        } else {
            None
        }
    } else if t[0] == '&' || t[0] == '<' || t[0] == '>' || t[0] == '|' {
        None
    } else {
        match cmd_read(t.drop_first()) {
            Some(r) => Some(seq![t[0]] + r),
            None => None,
        }
    }
}

proof fn lemma_cmd_quoted_chars(s: Seq<char>, rest: Seq<char>)
    requires
        !s.contains('"'),
    ensures
        cmd_read(flat_map_chars(s, |c: char| cmd_quote_char(c)) + rest) == match cmd_read(rest) {
            Some(r) => Some(s + r),
            None => None,
        },
    decreases s.len(),
{
    let q = |c: char| cmd_quote_char(c);
    if s.len() == 0 {
        assert(flat_map_chars(s, q) + rest =~= rest);
        match cmd_read(rest) {
            Some(r) => {
                assert(s + r =~= r);
            },
            None => {},
        }
    } else {
        let c = s.last();
        assert(s[s.len() - 1] == c);
        let init = s.drop_last();
        assert forall|k: int| 0 <= k < init.len() implies init[k] != '"' by {
            assert(init[k] == s[k]);
        }
        let tail = q(c) + rest;
        assert(flat_map_chars(s, q) + rest =~= flat_map_chars(init, q) + tail);
        lemma_cmd_quoted_chars(init, tail);
        if c == '^' || c == '&' || c == '<' || c == '>' || c == '|' || c == '%' {
            assert(tail[0] == '^' || tail[0] == '%');
            assert(tail[1] == c);
            assert(tail.subrange(2, tail.len() as int) =~= rest);
        } else {
            assert(tail[0] == c);
            assert(tail.drop_first() =~= rest);
        }
        match cmd_read(rest) {
            Some(r) => {
                assert(cmd_read(tail) == Some(seq![c] + r));
                assert(init + (seq![c] + r) =~= s + r);
            },
            None => {
                assert(cmd_read(tail) is None);
            },
        }
    }
}

/// Escaping for cmd.exe keeps an argument whose characters are all plain;
/// any other argument without a double quote is quoted and escaped so that
/// cmd.exe reads it back as it was: carets and operators are caret-escaped
/// and every `%` is doubled, so no variable is expanded.
pub proof fn lemma_cmd_escape_reads_back(s: Seq<char>)
    ensures
        escape_cmd(s) == s && (forall|i: int| 0 <= i < s.len() ==> windows_plain(#[trigger] s[i]))
            || (!s.contains('"') ==> cmd_read(escape_cmd(s)) == Some(s)),
{
    if !(forall|i: int| 0 <= i < s.len() ==> windows_plain(#[trigger] s[i])) && !s.contains('"') {
        let q = |c: char| cmd_quote_char(c);
        let body = flat_map_chars(s, q);
        let e = seq!['"'] + body + seq!['"'];
        assert(e[0] == '"');
        assert(e.drop_first() =~= body + seq!['"']);
        lemma_cmd_quoted_chars(s, seq!['"']);
        assert(cmd_read(seq!['"']) == Some(Seq::<char>::empty())) by {
            let one = seq!['"'];
            assert(one[0] == '"');
            assert(one.drop_first() =~= Seq::<char>::empty());
            assert(cmd_read(one.drop_first()) == Some(Seq::<char>::empty()));
            assert(one.len() == 1);
        }
        assert(s + Seq::<char>::empty() =~= s);
    }
}

/// Interpreter and arguments named by a shebang line: the words after `#!`;
/// an interpreter ending in `/env` followed by at least one word is replaced
/// by that word.
pub open spec fn shebang_of(line: Seq<char>) -> Option<(Seq<char>, Seq<Seq<char>>)> {
    let t = trim(line);
    if !starts_with(t, seq!['#', '!']) {
        None
    } else {
        let parts = words(t.subrange(2, t.len() as int));
        if parts.len() == 0 {
            None
        } else if ends_with(parts[0], seq!['/', 'e', 'n', 'v']) && parts.len() > 1 {
            Some((parts[1], parts.subrange(2, parts.len() as int)))
        } else {
            Some((parts[0], parts.subrange(1, parts.len() as int)))
        }
    }
}

fn strings_from(v: &Vec<String>, from: usize) -> (r: Vec<String>)
    requires
        from <= v@.len(),
    ensures
        views(r@) == views(v@).subrange(from as int, v@.len() as int),
{
    let mut r: Vec<String> = Vec::new();
    let mut k = from;
    while k < v.len()
        invariant
            from <= k <= v@.len(),
            views(r@) == views(v@).subrange(from as int, k as int),
        decreases v.len() - k,
    {
        let ghost old_r = r@;
        let x = v[k].clone();
        r.push(x);
        assert(views(r@) =~= views(old_r).push(v@[k as int]@));
        k = k + 1;
        assert(views(r@) =~= views(v@).subrange(from as int, k as int));
    }
    r
}

/// Parse a shebang line into interpreter and arguments.
pub fn parse_shebang_line(line: &str) -> (r: Option<(String, Vec<String>)>)
    ensures
        match r {
            Some((i, a)) => shebang_of(line@) == Some((i@, views(a@))),
            None => shebang_of(line@).is_none(),
        },
{
    let c = chars_of(line);
    let t = trim_chars(c.as_slice());
    let bang: Vec<char> = vec!['#', '!'];
    if !starts_with_chars(t.as_slice(), bang.as_slice()) {
        return None;
    }
    let rest = crate::text::slice_chars(t.as_slice(), 2, t.len());
    let parts = split_words(rest.as_slice());
    if parts.len() == 0 {
        return None;
    }
    let first = chars_of(parts[0].as_str());
    let env: Vec<char> = vec!['/', 'e', 'n', 'v'];
    if ends_with_chars(first.as_slice(), env.as_slice()) && parts.len() > 1 {
        let interp = parts[1].clone();
        let args = strings_from(&parts, 2);
        Some((interp, args))
    } else {
        let interp = parts[0].clone();
        let args = strings_from(&parts, 1);
        Some((interp, args))
    }
}


/// Shell command builder.
#[derive(Debug)]
pub struct ShellCommand {
    shell: ShellType,
    command: String,
    cwd: Option<String>,
    env: Vec<(String, String)>,
    inherit_env: bool,
    capture: bool,
    timeout: Option<Duration>,
}

/// What a shell command builder describes.
pub struct ShellCommandSpec {
    pub shell: ShellType,
    pub command: Seq<char>,
    pub cwd: Option<Seq<char>>,
    pub env: Seq<(Seq<char>, Seq<char>)>,
    pub inherit_env: bool,
    pub capture: bool,
    pub timeout: Option<Duration>,
}

impl View for ShellCommand {
    type V = ShellCommandSpec;

    closed spec fn view(&self) -> ShellCommandSpec {
        ShellCommandSpec {
            shell: self.shell,
            command: self.command@,
            cwd: match self.cwd {
                Some(c) => Some(c@),
                None => None,
            },
            env: env_views(self.env@),
            inherit_env: self.inherit_env,
            capture: self.capture,
            timeout: self.timeout,
        }
    }
}

/// The environment pairs bound, in order, on top of `e`.
pub open spec fn env_bind_all(e: Seq<(Seq<char>, Seq<char>)>, pairs: Seq<(Seq<char>, Seq<char>)>) -> Seq<(Seq<char>, Seq<char>)>
    decreases pairs.len(),
{
    if pairs.len() == 0 {
        e
    } else {
        env_insert(env_bind_all(e, pairs.drop_last()), pairs.last().0, pairs.last().1)
    }
}

impl ShellCommand {
    /// Environment names never repeat.
    pub closed spec fn wf(&self) -> bool {
        env_distinct(env_views(self.env@))
    }

    /// Create a command for a specific shell: no working directory, no extra
    /// variables, inherited environment, captured output, no timeout.
    pub fn with_shell(shell: ShellType, command: &str) -> (r: Self)
        ensures
            r.wf(),
            r@ == (ShellCommandSpec {
                shell,
                command: command@,
                cwd: None,
                env: Seq::empty(),
                inherit_env: true,
                capture: true,
                timeout: None,
            }),
    {
        let r = ShellCommand {
            shell,
            command: owned(command),
            cwd: None,
            env: Vec::new(),
            inherit_env: true,
            capture: true,
            timeout: None,
        };
        assert(r@.env =~= Seq::<(Seq<char>, Seq<char>)>::empty());
        r
    }

    /// Create a command for the platform's default shell.
    pub fn new(command: &str, platform: &Platform) -> (r: Self)
        ensures
            r.wf(),
            r@ == (ShellCommandSpec {
                shell: platform.default_shell,
                command: command@,
                cwd: None,
                env: Seq::empty(),
                inherit_env: true,
                capture: true,
                timeout: None,
            }),
    {
        Self::with_shell(platform.default_shell, command)
    }

    /// Set the working directory.
    pub fn cwd(self, dir: &str) -> (r: Self)
        ensures
            r@ == (ShellCommandSpec { cwd: Some(dir@), ..self@ }),
            self.wf() ==> r.wf(),
    {
        ShellCommand { cwd: Some(owned(dir)), ..self }
    }

    /// Set an environment variable; a later value for the same name replaces
    /// the earlier one.
    pub fn env(self, key: &str, value: &str) -> (r: Self)
        ensures
            r@ == (ShellCommandSpec { env: env_insert(self@.env, key@, value@), ..self@ }),
            self.wf() ==> r.wf(),
    {
        let mut s = self;
        env_set(&mut s.env, key, value);
        proof {
            if self.wf() {
                lemma_env_insert_lookup(self@.env, key@, value@, key@);
            }
        }
        s
    }

    /// Set several environment variables, in order.
    pub fn envs(self, vars: &[(&str, &str)]) -> (r: Self)
        ensures
            r@ == (ShellCommandSpec {
                env: env_bind_all(self@.env, vars@.map_values(|p: (&str, &str)| (p.0@, p.1@))),
                ..self@
            }),
            self.wf() ==> r.wf(),
    {
        let ghost pv = vars@.map_values(|p: (&str, &str)| (p.0@, p.1@));
        let mut s = self;
        let mut i: usize = 0;
        while i < vars.len()
            invariant
                i <= vars@.len(),
                pv == vars@.map_values(|p: (&str, &str)| (p.0@, p.1@)),
                s@ == (ShellCommandSpec { env: env_bind_all(self@.env, pv.subrange(0, i as int)), ..self@ }),
                self.wf() ==> s.wf(),
            decreases vars.len() - i,
        {
            let (k, v) = vars[i];
            s = s.env(k, v);
            assert(pv.subrange(0, i + 1).drop_last() =~= pv.subrange(0, i as int));
            i = i + 1;
        }
        assert(pv.subrange(0, vars@.len() as int) =~= pv);
        s
    }

    /// Don't inherit the parent environment.
    pub fn no_inherit_env(self) -> (r: Self)
        ensures
            r@ == (ShellCommandSpec { inherit_env: false, ..self@ }),
            self.wf() ==> r.wf(),
    {
        ShellCommand { inherit_env: false, ..self }
    }

    /// Don't capture output (inherit stdio).
    pub fn no_capture(self) -> (r: Self)
        ensures
            r@ == (ShellCommandSpec { capture: false, ..self@ }),
            self.wf() ==> r.wf(),
    {
        ShellCommand { capture: false, ..self }
    }

    /// Set timeout.
    pub fn timeout(self, duration: Duration) -> (r: Self)
        ensures
            r@ == (ShellCommandSpec { timeout: Some(duration), ..self@ }),
            self.wf() ==> r.wf(),
    {
        ShellCommand { timeout: Some(duration), ..self }
    }

    /// Shell that runs the command.
    pub fn shell(&self) -> (r: ShellType)
        ensures
            r == self@.shell,
    {
        self.shell
    }

    /// The process that runs this command: the shell's executable with its
    /// command flag and the command string; the working directory; a cleared
    /// environment unless it is inherited; the variables in order; captured
    /// output or inherited stdin; the timeout.
    pub fn process_builder(self) -> (r: ProcessBuilder)
        ensures
            r.wf(),
            r@.program == executable_of(self@.shell),
            r@.args == seq![command_flag_of(self@.shell), self@.command],
            r@.cwd == self@.cwd,
            r@.env_override == env_bind_all(Seq::empty(), self@.env),
            r@.env_remove.len() == 0,
            r@.clear_env == !self@.inherit_env,
            r@.stdin == StdioConfig::Inherit,
            r@.stdout == (if self@.capture { StdioConfig::Pipe } else { StdioConfig::Inherit }),
            r@.stderr == (if self@.capture { StdioConfig::Pipe } else { StdioConfig::Inherit }),
            !r@.new_process_group && !r@.new_session,
            r@.timeout == self@.timeout,
    {
        let ghost e = self@.env;
        let mut b = ProcessBuilder::new(self.shell.executable()).arg(self.shell.command_flag()).arg(
            self.command.as_str(),
        );
        assert(b@.args =~= seq![command_flag_of(self@.shell), self@.command]);
        if let Some(cwd) = &self.cwd {
            b = b.cwd(cwd.as_str());
        }
        if !self.inherit_env {
            b = b.env_clear();
        }
        let mut i: usize = 0;
        assert(e.subrange(0, 0) =~= Seq::<(Seq<char>, Seq<char>)>::empty());
        while i < self.env.len()
            invariant
                i <= self.env@.len(),
                e == env_views(self.env@),
                b.wf(),
                b@.program == executable_of(self.shell),
                b@.args == seq![command_flag_of(self.shell), self.command@],
                b@.cwd == self@.cwd,
                b@.env_override == env_bind_all(Seq::empty(), e.subrange(0, i as int)),
                b@.env_remove.len() == 0,
                b@.clear_env == !self.inherit_env,
                b@.stdin == StdioConfig::Inherit && b@.stdout == StdioConfig::Inherit
                    && b@.stderr == StdioConfig::Inherit,
                !b@.new_process_group && !b@.new_session,
                b@.timeout.is_none(),
            decreases self.env.len() - i,
        {
            b = b.env(self.env[i].0.as_str(), self.env[i].1.as_str());
            assert(e.subrange(0, i + 1).drop_last() =~= e.subrange(0, i as int));
            i = i + 1;
        }
        assert(e.subrange(0, e.len() as int) =~= e);
        if self.capture {
            b = b.capture();
        } else {
            b = b.stdin(StdioConfig::Inherit);
        }
        if let Some(t) = self.timeout {
            b = b.timeout(t);
        }
        b
    }
}

/// The message of a failed shell command: its exit code (`-1` when the
/// process has none) and its trimmed standard error.
pub open spec fn shell_failure_text(code: Option<i32>, stderr: Seq<char>) -> Seq<char> {
    let c: int = match code {
        Some(x) => x as int,
        None => -1,
    };
    "Command failed with exit code "@ + signed_dec(c) + ": "@ + stderr
}

/// The error that `ShellCommand::status` reports for a command that did not
/// succeed: a shell command error naming the code (`-1` when there is none)
/// and the trimmed standard error.
pub fn shell_status_message(code: Option<i32>, stderr_trimmed: &str) -> (r: PlatformError)
    ensures
        r is ShellCommand,
        r->ShellCommand_0@ == shell_failure_text(code, stderr_trimmed@),
{
    let c: i32 = match code {
        Some(x) => x,
        None => -1,
    };
    let mut out: Vec<char> = Vec::new();
    push_str(&mut out, "Command failed with exit code ");
    push_signed(&mut out, c);
    push_str(&mut out, ": ");
    push_str(&mut out, stderr_trimmed);
    assert(out@ =~= shell_failure_text(code, stderr_trimmed@));
    PlatformError::ShellCommand(string_of(out.as_slice()))
}

/// Shell abstraction for interactive use.
#[derive(Debug, Clone)]
pub struct Shell {
    shell_type: ShellType,
    path: String,
}

/// The value of a variable as printed by a shell's `echo`: `None` when the
/// trimmed output is empty or is the unexpanded reference `%NAME%` or `$NAME`.
pub open spec fn env_value_of(name: Seq<char>, output: Seq<char>) -> Option<Seq<char>> {
    let v = trim(output);
    if v.len() == 0 || v == seq!['%'] + name + seq!['%'] || v == seq!['$'] + name {
        None
    } else {
        Some(v)
    }
}

impl Shell {
    /// A shell of the given type found at `found`, the result of searching
    /// the executable in `PATH`; a shell-not-found error naming the
    /// executable when the search found nothing.
    pub fn from_lookup(shell_type: ShellType, found: Option<String>) -> (r: Result<Self, PlatformError>)
        ensures
            match found {
                Some(p) => r matches Ok(s) && s.shell_type() == shell_type && s.path_view() == p@,
                None => r matches Err(PlatformError::ShellNotFound { shell: x }) && x@ == executable_of(shell_type),
            },
    {
        match found {
            Some(path) => Ok(Shell { shell_type, path }),
            None => Err(PlatformError::ShellNotFound { shell: owned(shell_type.executable()) }),
        }
    }

    /// PowerShell: the cross-platform `pwsh` when the search found it,
    /// otherwise Windows PowerShell, given what the searches for `pwsh` and
    /// `powershell.exe` found.
    pub fn powershell_from(pwsh: Option<String>, powershell: Option<String>) -> (r: Result<Self, PlatformError>)
        ensures
            match pwsh {
                Some(p) => r matches Ok(s) && s.shell_type() == ShellType::Pwsh && s.path_view() == p@,
                None => match powershell {
                    Some(p) => r matches Ok(s) && s.shell_type() == ShellType::PowerShell && s.path_view() == p@,
                    None => r matches Err(PlatformError::ShellNotFound { shell: x }) && x@ == executable_of(ShellType::PowerShell),
                },
            },
    {
        match pwsh {
            Some(p) => Self::from_lookup(ShellType::Pwsh, Some(p)),
            None => Self::from_lookup(ShellType::PowerShell, powershell),
        }
    }

    /// Path of the shell executable.
    pub closed spec fn path_view(&self) -> Seq<char> {
        self.path@
    }

    /// Type of the shell.
    pub closed spec fn spec_shell_type(&self) -> ShellType {
        self.shell_type
    }

    /// Get shell type.
    #[verifier::when_used_as_spec(spec_shell_type)]
    pub fn shell_type(&self) -> (r: ShellType)
        ensures
            r == self.spec_shell_type(),
    {
        self.shell_type
    }

    /// Get shell path.
    pub fn path(&self) -> (r: &str)
        ensures
            r@ == self.path_view(),
    {
        self.path.as_str()
    }

    /// Command that prints the value of an environment variable in this shell.
    pub fn echo_env_command(&self, name: &str) -> (r: String)
        ensures
            r@ == (if is_unix_shell(self.shell_type()) {
                "echo \""@ + seq!['$'] + name@ + seq!['"']
            } else if self.shell_type() == ShellType::Cmd {
                "echo %"@ + name@ + seq!['%']
            } else {
                "echo $env:"@ + name@
            }),
    {
        let mut v: Vec<char> = Vec::new();
        match self.shell_type {
            ShellType::Sh | ShellType::Bash | ShellType::Zsh | ShellType::Fish => {
                push_str(&mut v, "echo \"");
                v.push('$');
                push_str(&mut v, name);
                v.push('"');
            },
            ShellType::Cmd => {
                push_str(&mut v, "echo %");
                push_str(&mut v, name);
                v.push('%');
            },
            ShellType::PowerShell | ShellType::Pwsh => {
                push_str(&mut v, "echo $env:");
                push_str(&mut v, name);
            },
        }
        string_of(v.as_slice())
    }

    /// Value of an environment variable from the output of the command
    /// `echo_env_command` built: `None` when the variable was unset.
    pub fn env_value_from_output(name: &str, output: &str) -> (r: Option<String>)
        ensures
            match r {
                Some(v) => env_value_of(name@, output@) == Some(v@),
                None => env_value_of(name@, output@).is_none(),
            },
    {
        let o = chars_of(output);
        let v = trim_chars(o.as_slice());
        let mut pct: Vec<char> = Vec::new();
        pct.push('%');
        push_str(&mut pct, name);
        pct.push('%');
        let mut dollar: Vec<char> = Vec::new();
        dollar.push('$');
        push_str(&mut dollar, name);
        assert(pct@ =~= seq!['%'] + name@ + seq!['%']);
        assert(dollar@ =~= seq!['$'] + name@);
        if v.len() == 0 || crate::text::chars_eq(v.as_slice(), pct.as_slice())
            || crate::text::chars_eq(v.as_slice(), dollar.as_slice()) {
            None
        } else {
            Some(string_of(v.as_slice()))
        }
    }

    /// Command that runs a script in this shell: `. script` in the POSIX
    /// shells and PowerShell, `source script` in fish, `call script` in
    /// the Command Prompt.
    pub fn source_command(&self, script: &str) -> (r: String)
        ensures
            r@ == (match self.shell_type() {
                ShellType::Fish => "source "@ + script@,
                ShellType::Cmd => "call "@ + script@,
                _ => ". "@ + script@,
            }),
    {
        let mut v: Vec<char> = Vec::new();
        match self.shell_type {
            ShellType::Fish => push_str(&mut v, "source "),
            ShellType::Cmd => push_str(&mut v, "call "),
            _ => push_str(&mut v, ". "),
        }
        push_str(&mut v, script);
        string_of(v.as_slice())
    }

    /// Script line that sets an environment variable in this shell.
    pub fn export_syntax(&self, name: &str, value: &str) -> (r: String)
        ensures
            r@ == (match self.shell_type() {
                ShellType::Sh | ShellType::Bash | ShellType::Zsh => "export "@ + name@ + seq!['=', '"'] + value@ + seq!['"'],
                ShellType::Fish => "set -gx "@ + name@ + seq![' ', '"'] + value@ + seq!['"'],
                ShellType::Cmd => "set "@ + name@ + seq!['='] + value@,
                _ => seq!['$'] + "env:"@ + name@ + " = \""@ + value@ + seq!['"'],
            }),
    {
        let mut v: Vec<char> = Vec::new();
        match self.shell_type {
            ShellType::Sh | ShellType::Bash | ShellType::Zsh => {
                push_str(&mut v, "export ");
                push_str(&mut v, name);
                v.push('=');
                v.push('"');
                push_str(&mut v, value);
                v.push('"');
            },
            ShellType::Fish => {
                push_str(&mut v, "set -gx ");
                push_str(&mut v, name);
                v.push(' ');
                v.push('"');
                push_str(&mut v, value);
                v.push('"');
            },
            ShellType::Cmd => {
                push_str(&mut v, "set ");
                push_str(&mut v, name);
                v.push('=');
                push_str(&mut v, value);
            },
            ShellType::PowerShell | ShellType::Pwsh => {
                v.push('$');
                push_str(&mut v, "env:");
                push_str(&mut v, name);
                push_str(&mut v, " = \"");
                push_str(&mut v, value);
                v.push('"');
            },
        }
        assert(v@ =~= (match self.shell_type() {
            ShellType::Sh | ShellType::Bash | ShellType::Zsh => "export "@ + name@ + seq!['=', '"'] + value@ + seq!['"'],
            ShellType::Fish => "set -gx "@ + name@ + seq![' ', '"'] + value@ + seq!['"'],
            ShellType::Cmd => "set "@ + name@ + seq!['='] + value@,
            _ => seq!['$'] + "env:"@ + name@ + " = \""@ + value@ + seq!['"'],
        }));
        string_of(v.as_slice())
    }
}

} // verus!
