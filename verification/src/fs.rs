//! Cross-platform paths, link kinds and path comparison.
//!
//! The file operations themselves (atomic writes, links, copies) read and
//! write the disk and are driven by the caller; this module holds the path
//! logic they rely on.
use vstd::prelude::*;
use crate::path::{
    absolute, extension_chars, extension_of_name, file_name_chars, file_name_of, joined, parent_of, same_components,
    is_absolute_path, join_chars, parent_chars, same_path, with_suffix, with_suffix_chars,
};
use crate::platform::{Os, Platform};
use crate::text::{chars_of, lowercase_of, string_of, to_lowercase};

verus! {

/// Every separator of the other OS family replaced by the separator of
/// `os`: on Windows `/` becomes `\`, elsewhere `\` becomes `/`.
pub open spec fn with_native_separators(s: Seq<char>, os: Os) -> Seq<char> {
    Seq::new(
        s.len(),
        |i: int|
            if os == Os::Windows {
                if s[i] == '/' { '\\' } else { s[i] }
            } else {
                if s[i] == '\\' { '/' } else { s[i] }
            },
    )
}

/// Whether a Windows path carries a long-path (`\\?\`) or device (`\\.\`)
/// prefix.
pub open spec fn long_path_prefix(s: Seq<char>) -> bool {
    s.len() >= 4 && s[0] == '\\' && s[1] == '\\' && (s[2] == '?' || s[2] == '.') && s[3] == '\\'
}

fn native_separators(s: &[char], os: &Os) -> (r: Vec<char>)
    ensures
        r@ == with_native_separators(s@, *os),
{
    let mut out: Vec<char> = Vec::new();
    let mut i: usize = 0;
    while i < s.len()
        invariant
            i <= s@.len(),
            out@ == with_native_separators(s@, *os).subrange(0, i as int),
        decreases s.len() - i,
    {
        let c = s[i];
        let d = if *os == Os::Windows {
            if c == '/' { '\\' } else { c }
        } else {
            if c == '\\' { '/' } else { c }
        };
        out.push(d);
        i = i + 1;
        assert(out@ =~= with_native_separators(s@, *os).subrange(0, i as int));
    }
    assert(with_native_separators(s@, *os).subrange(0, s@.len() as int) =~= with_native_separators(s@, *os));
    out
}

/// Cross-platform path: the text of a path with the separators of its OS.
#[derive(Debug, Clone, PartialEq, Eq, Hash)]
pub struct CrossPath {
    inner: String,
    is_long_path: bool,
    os: Os,
}

impl CrossPath {
    /// The text of the path.
    pub closed spec fn text(&self) -> Seq<char> {
        self.inner@
    }

    /// Whether the path is a Windows long path.
    pub closed spec fn long(&self) -> bool {
        self.is_long_path
    }

    /// The OS whose conventions the path follows.
    pub closed spec fn os_of(&self) -> Os {
        self.os
    }

    /// Create a path for `os`: separators are made native, and a Windows
    /// path with a `\\?\` or `\\.\` prefix is marked as a long path.
    pub fn new(path: &str, os: &Os) -> (r: Self)
        ensures
            r.text() == with_native_separators(path@, *os),
            r.long() == (*os == Os::Windows && long_path_prefix(path@)),
            r.os_of() == *os,
    {
        let chars = chars_of(path);
        Self::from_chars(chars.as_slice(), os)
    }

    fn from_chars(path: &[char], os: &Os) -> (r: Self)
        ensures
            r.text() == with_native_separators(path@, *os),
            r.long() == (*os == Os::Windows && long_path_prefix(path@)),
            r.os_of() == *os,
    {
        let long = *os == Os::Windows && path.len() >= 4 && path[0] == '\\' && path[1] == '\\' && (
        path[2] == '?' || path[2] == '.') && path[3] == '\\';
        let normalized = native_separators(path, os);
        CrossPath { inner: string_of(normalized.as_slice()), is_long_path: long, os: *os }
    }

    /// Create from a string, handling platform differences: the separators
    /// are made native first, which gives the same path as [`CrossPath::new`].
    pub fn from_string(path: &str, os: &Os) -> (r: Self)
        ensures
            r.text() == with_native_separators(path@, *os),
            r.long() == (*os == Os::Windows && long_path_prefix(with_native_separators(path@, *os))),
            r.os_of() == *os,
    {
        let chars = chars_of(path);
        let normalized = native_separators(chars.as_slice(), os);
        let r = Self::from_chars(normalized.as_slice(), os);
        proof {
            lemma_native_idempotent(path@, *os);
        }
        r
    }

    /// Get the inner path.
    pub fn as_path(&self) -> (r: &str)
        ensures
            r@ == self.text(),
    {
        self.inner.as_str()
    }

    /// Get as an owned path string.
    pub fn to_path_buf(&self) -> (r: String)
        ensures
            r@ == self.text(),
    {
        self.inner.clone()
    }

    /// Whether this is a Windows long path.
    pub fn is_long_path(&self) -> (r: bool)
        ensures
            r == self.long(),
    {
        self.is_long_path
    }

    /// Check if this is an absolute path.
    pub fn is_absolute(&self) -> (r: bool)
        ensures
            r == absolute(self.text(), self.os_of()),
    {
        let chars = chars_of(self.inner.as_str());
        is_absolute_path(chars.as_slice(), &self.os)
    }

    /// Get the parent directory.
    pub fn parent(&self) -> (r: Option<Self>)
        ensures
            match parent_of(self.text(), self.os_of()) {
                Some(p) => r matches Some(q) && q.text() == with_native_separators(p, self.os_of())
                    && q.os_of() == self.os_of(),
                None => r is None,
            },
    {
        let chars = chars_of(self.inner.as_str());
        match parent_chars(chars.as_slice(), &self.os) {
            Some(p) => Some(Self::from_chars(p.as_slice(), &self.os)),
            None => None,
        }
    }

    /// Join with another path component.
    pub fn join(&self, path: &str) -> (r: Self)
        ensures
            r.text() == with_native_separators(joined(self.text(), path@, self.os_of()), self.os_of()),
            r.os_of() == self.os_of(),
    {
        let base = chars_of(self.inner.as_str());
        let comp = chars_of(path);
        let j = join_chars(base.as_slice(), comp.as_slice(), &self.os);
        Self::from_chars(j.as_slice(), &self.os)
    }

    /// The final component of the path, if it has one.
    pub fn file_name(&self) -> (r: Option<String>)
        ensures
            match file_name_of(self.text(), self.os_of()) {
                Some(n) => r matches Some(x) && x@ == n,
                None => r is None,
            },
    {
        let chars = chars_of(self.inner.as_str());
        match file_name_chars(chars.as_slice(), &self.os) {
            Some(n) => Some(string_of(n.as_slice())),
            None => None,
        }
    }

    /// The extension of the final component, if it has one.
    pub fn extension(&self) -> (r: Option<String>)
        ensures
            match file_name_of(self.text(), self.os_of()) {
                Some(n) => match extension_of_name(n) {
                    Some(e) => r matches Some(x) && x@ == e,
                    None => r is None,
                },
                None => r is None,
            },
    {
        let chars = chars_of(self.inner.as_str());
        match file_name_chars(chars.as_slice(), &self.os) {
            Some(n) => match extension_chars(n.as_slice()) {
                Some(e) => Some(string_of(e.as_slice())),
                None => None,
            },
            None => None,
        }
    }

    /// The path as text.
    pub fn to_string(&self) -> (r: String)
        ensures
            r@ == self.text(),
    {
        self.inner.clone()
    }
}

/// Number of bytes of a character in UTF-8.
pub open spec fn utf8_width(c: char) -> nat {
    let n = c as u32;
    if n < 0x80 {
        1
    } else if n < 0x800 {
        2
    } else if n < 0x10000 {
        3
    } else {
        4
    }
}

/// Number of bytes of a text in UTF-8.
pub open spec fn utf8_len(s: Seq<char>) -> nat
    decreases s.len(),
{
    if s.len() == 0 {
        0
    } else {
        utf8_len(s.drop_last()) + utf8_width(s.last())
    }
}

/// Longest path, in bytes, that Windows accepts without the long-path
/// prefix.
pub const MAX_SHORT_PATH_BYTES: usize = 260;

/// The long-path form of a path on Windows: a path that is already long,
/// or that starts with `\\?\`, or that fits in `MAX_SHORT_PATH_BYTES`
/// bytes stays as it is; a longer one is made absolute against the current
/// directory `cwd` (kept relative when there is none) and prefixed with
/// `\\?\`. On other systems every path stays as it is.
pub open spec fn long_path_form(text: Seq<char>, long: bool, os: Os, cwd: Option<Seq<char>>) -> Seq<char> {
    if os != Os::Windows || long || (text.len() >= 4 && text.subrange(0, 4) == seq!['\\', '\\', '?', '\\']) {
        text
    } else if utf8_len(text) > MAX_SHORT_PATH_BYTES {
        seq!['\\', '\\', '?', '\\'] + if absolute(text, os) {
            text
        } else {
            match cwd {
                Some(c) => joined(c, text, os),
                None => text,
            }
        }
    } else {
        text
    }
}

/// Whether the UTF-8 length of a text exceeds `limit`.
fn utf8_len_exceeds(s: &[char], limit: usize) -> (r: bool)
    ensures
        r == (utf8_len(s@) > limit),
{
    let mut total: usize = 0;
    let mut i: usize = 0;
    while i < s.len()
        invariant
            i <= s@.len(),
            total == utf8_len(s@.subrange(0, i as int)),
            total <= limit,
        decreases s.len() - i,
    {
        let n = s[i] as u32;
        let w: usize = if n < 0x80 {
            1
        } else if n < 0x800 {
            2
        } else if n < 0x10000 {
            3
        } else {
            4
        };
        assert(s@.subrange(0, i + 1).drop_last() =~= s@.subrange(0, i as int));
        if w > limit - total {
            proof {
                lemma_utf8_len_prefix(s@, i + 1);
            }
            return true;
        }
        total = total + w;
        i = i + 1;
    }
    assert(s@.subrange(0, s@.len() as int) =~= s@);
    false
}

/// The UTF-8 length of a text is at least that of each of its prefixes.
proof fn lemma_utf8_len_prefix(s: Seq<char>, k: int)
    requires
        0 <= k <= s.len(),
    ensures
        utf8_len(s.subrange(0, k)) <= utf8_len(s),
    decreases s.len() - k,
{
    if k < s.len() {
        lemma_utf8_len_prefix(s, k + 1);
        assert(s.subrange(0, k + 1).drop_last() =~= s.subrange(0, k));
    }
    assert(s.subrange(0, s.len() as int) =~= s);
}

impl CrossPath {
    /// Convert to the Windows long-path form (see `long_path_form`);
    /// `cwd` is the current directory, if it can be read.
    pub fn to_windows_long_path(&self, cwd: Option<&str>) -> (r: String)
        ensures
            r@ == long_path_form(
                self.text(),
                self.long(),
                self.os_of(),
                match cwd {
                    Some(c) => Some(c@),
                    None => None,
                },
            ),
    {
        let t = chars_of(self.inner.as_str());
        let prefixed = t.len() >= 4 && t[0] == '\\' && t[1] == '\\' && t[2] == '?' && t[3] == '\\';
        proof {
            if t@.len() >= 4 {
                if prefixed {
                    assert(t@.subrange(0, 4) =~= seq!['\\', '\\', '?', '\\']);
                }
                if t@.subrange(0, 4) == seq!['\\', '\\', '?', '\\'] {
                    assert(t@[0] == t@.subrange(0, 4)[0]);
                    assert(t@[1] == t@.subrange(0, 4)[1]);
                    assert(t@[2] == t@.subrange(0, 4)[2]);
                    assert(t@[3] == t@.subrange(0, 4)[3]);
                }
            }
        }
        if self.os != Os::Windows || self.is_long_path || prefixed {
            return self.inner.clone();
        }
        if !utf8_len_exceeds(t.as_slice(), MAX_SHORT_PATH_BYTES) {
            return self.inner.clone();
        }
        let abs: Vec<char> = if is_absolute_path(t.as_slice(), &self.os) {
            t
        } else {
            match cwd {
                Some(c) => {
                    let base = chars_of(c);
                    join_chars(base.as_slice(), t.as_slice(), &self.os)
                },
                None => t,
            }
        };
        let mut out: Vec<char> = vec!['\\', '\\', '?', '\\'];
        crate::text::push_all(&mut out, abs.as_slice());
        string_of(out.as_slice())
    }
}

/// Making separators native twice is the same as making them native once.
pub proof fn lemma_native_idempotent(s: Seq<char>, os: Os)
    ensures
        with_native_separators(with_native_separators(s, os), os) == with_native_separators(s, os),
{
    assert(with_native_separators(with_native_separators(s, os), os) =~= with_native_separators(s, os));
}

/// Link types for file system links.
#[derive(Debug, Clone, Copy, PartialEq, Eq, Structural, Hash)]
pub enum LinkType {
    /// Symbolic link (Unix/Windows).
    Symbolic,
    /// Hard link (Unix/Windows).
    Hard,
    /// Junction (Windows only).
    Junction,
}

impl LinkType {
    /// Check if this link type is supported on `os`: junctions exist on
    /// Windows only.
    pub fn is_supported(&self, os: &Os) -> (r: bool)
        ensures
            r == (*self != LinkType::Junction || *os == Os::Windows),
    {
        match self {
            LinkType::Symbolic | LinkType::Hard => true,
            LinkType::Junction => *os == Os::Windows,
        }
    }
}

/// Result of an atomic write operation.
#[derive(Debug)]
pub struct AtomicWriteResult {
    /// Path that was written.
    pub path: String,
    /// Bytes written.
    pub bytes_written: usize,
    /// Whether there was an existing file.
    pub had_existing: bool,
}

/// The temporary file an atomic write of `target` goes through:
/// `.tmp` appended to its file name.
pub fn atomic_temp_path(target: &str, os: &Os) -> (r: String)
    ensures
        r@ == with_suffix(target@, seq!['t', 'm', 'p'], *os),
{
    let t = chars_of(target);
    let suffix: Vec<char> = vec!['t', 'm', 'p'];
    assert(suffix@ =~= seq!['t', 'm', 'p']);
    let p = with_suffix_chars(t.as_slice(), suffix.as_slice(), os);
    string_of(p.as_slice())
}

/// The lock file guarding atomic writes of `target`: `.lock` appended to
/// its file name.
pub fn atomic_lock_path(target: &str, os: &Os) -> (r: String)
    ensures
        r@ == with_suffix(target@, seq!['l', 'o', 'c', 'k'], *os),
{
    let t = chars_of(target);
    let suffix: Vec<char> = vec!['l', 'o', 'c', 'k'];
    assert(suffix@ =~= seq!['l', 'o', 'c', 'k']);
    let p = with_suffix_chars(t.as_slice(), suffix.as_slice(), os);
    string_of(p.as_slice())
}

/// The backup an atomic write of `target` keeps: `.bak` appended to its
/// file name.
pub fn atomic_backup_path(target: &str, os: &Os) -> (r: String)
    ensures
        r@ == with_suffix(target@, seq!['b', 'a', 'k'], *os),
{
    let t = chars_of(target);
    let suffix: Vec<char> = vec!['b', 'a', 'k'];
    assert(suffix@ =~= seq!['b', 'a', 'k']);
    let p = with_suffix_chars(t.as_slice(), suffix.as_slice(), os);
    string_of(p.as_slice())
}

/// Whether an atomic write first copies the existing file to its backup:
/// only when there is one and backups are wanted.
pub fn needs_backup(had_existing: bool, create_backup: bool) -> (r: bool)
    ensures
        r == (had_existing && create_backup),
{
    had_existing && create_backup
}

/// Outcome of one attempt to take an exclusive file lock.
#[derive(Debug, Clone, Copy, PartialEq, Eq, Structural)]
pub enum LockAttempt {
    /// The lock was taken.
    Acquired,
    /// Another holder has it.
    WouldBlock,
    /// The attempt failed for another reason.
    Failed,
}

/// What to do after an attempt to take a lock.
#[derive(Debug, Clone, Copy, PartialEq, Eq, Structural)]
pub enum LockStep {
    /// The lock is held: proceed.
    Done,
    /// Sleep briefly and try again.
    Retry,
    /// Give up: the lock stayed busy for longer than the timeout.
    TimedOut,
    /// Give up: the attempt failed.
    Error,
}

/// The next step of lock acquisition, given the last attempt, the time
/// spent so far and the timeout (both in milliseconds): a busy lock is
/// retried until more than the timeout has passed.
pub fn lock_step(attempt: LockAttempt, elapsed_ms: u128, timeout_ms: u128) -> (r: LockStep)
    ensures
        r == (match attempt {
            LockAttempt::Acquired => LockStep::Done,
            LockAttempt::WouldBlock => if elapsed_ms > timeout_ms {
                LockStep::TimedOut
            } else {
                LockStep::Retry
            },
            LockAttempt::Failed => LockStep::Error,
        }),
{
    match attempt {
        LockAttempt::Acquired => LockStep::Done,
        LockAttempt::WouldBlock => {
            if elapsed_ms > timeout_ms {
                LockStep::TimedOut
            } else {
                LockStep::Retry
            }
        },
        LockAttempt::Failed => LockStep::Error,
    }
}

/// Largest number of bytes asked of one in-kernel copy call.
pub const COPY_CHUNK_BYTES: u64 = 1073741824;

/// The number of bytes to ask of the next in-kernel copy call, given the
/// source's length and the bytes copied so far: what remains, at most
/// `COPY_CHUNK_BYTES`; `None` once everything has been copied.
pub fn copy_chunk(src_len: u64, copied: u64) -> (r: Option<u64>)
    ensures
        copied < src_len ==> r == Some(
            if src_len - copied < COPY_CHUNK_BYTES { (src_len - copied) as u64 } else { COPY_CHUNK_BYTES },
        ),
        copied >= src_len ==> r is None,
{
    if copied < src_len {
        let remaining = src_len - copied;
        if remaining < COPY_CHUNK_BYTES {
            Some(remaining)
        } else {
            Some(COPY_CHUNK_BYTES)
        }
    } else {
        None
    }
}

/// What one in-kernel copy call reported.
#[derive(Debug, Clone, Copy, PartialEq, Eq, Structural)]
pub enum CopyProgress {
    /// Bytes were copied; the total so far.
    Copied(u64),
    /// The source ended; the total copied.
    Ended(u64),
    /// The call failed.
    Failed,
}

/// The progress of a copy after a call that returned `result`: a negative
/// result is a failure, zero ends the copy, anything else adds to the
/// bytes copied.
pub fn copy_progress(copied: u64, result: i64) -> (r: CopyProgress)
    requires
        result > 0 ==> copied + result <= u64::MAX,
    ensures
        r == (if result < 0 {
            CopyProgress::Failed
        } else if result == 0 {
            CopyProgress::Ended(copied)
        } else {
            CopyProgress::Copied((copied + result) as u64)
        }),
{
    if result < 0 {
        CopyProgress::Failed
    } else if result == 0 {
        CopyProgress::Ended(copied)
    } else {
        let n: u64 = result as u64;
        CopyProgress::Copied(copied + n)
    }
}

/// Seconds an atomic write waits for its lock.
pub const LOCK_TIMEOUT_SECS: u64 = 30;

/// Platform-specific file system operations.
#[derive(Debug, Clone, Copy)]
pub struct PlatformFs;

/// Path comparison: with case sensitivity, two paths are equal when they
/// have the same components on `os`; without it, when their lower-cased
/// texts are equal.
pub fn paths_equal(a: &str, b: &str, case_sensitive: bool, os: &Os) -> (r: bool)
    ensures
        r == (if case_sensitive {
            same_components(a@, b@, *os)
        } else {
            lowercase_of(a@) == lowercase_of(b@)
        }),
{
    if case_sensitive {
        let ca = chars_of(a);
        let cb = chars_of(b);
        same_path(ca.as_slice(), cb.as_slice(), os)
    } else {
        let la = to_lowercase(a);
        let lb = to_lowercase(b);
        crate::text::str_eq(la.as_str(), lb.as_str())
    }
}

/// Normalize a path for comparison on a platform: native separators, then
/// lower case where the file system ignores case.
pub fn normalize_for_comparison(path: &str, platform: &Platform) -> (r: String)
    ensures
        r@ == (if platform.case_sensitive_fs {
            with_native_separators(path@, if platform.os == Os::Windows { Os::Windows } else { Os::Linux })
        } else {
            lowercase_of(with_native_separators(path@, if platform.os == Os::Windows { Os::Windows } else { Os::Linux }))
        }),
{
    let family = if platform.is_windows() { Os::Windows } else { Os::Linux };
    let chars = chars_of(path);
    let normalized = native_separators(chars.as_slice(), &family);
    let text = string_of(normalized.as_slice());
    if platform.case_sensitive_fs {
        text
    } else {
        to_lowercase(text.as_str())
    }
}

} // verus!
