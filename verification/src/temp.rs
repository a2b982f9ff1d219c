//! Temporary directories: their names, their paths and whether they are
//! removed when dropped. Creating and removing them on disk is done by the
//! caller.
use vstd::prelude::*;
use crate::path::{join_chars, joined};
use crate::platform::Os;
use crate::text::{chars_of, owned, push_all, push_str, radix_chars, radix_digits, string_of};

verus! {

/// The name of a temporary directory: `{prefix}_{pid}_{timestamp}_{id}`,
/// numbers in decimal.
pub open spec fn temp_dir_name(prefix: Seq<char>, pid: u32, timestamp: u128, id: u64) -> Seq<char> {
    prefix + seq!['_'] + radix_digits(pid as nat, 10) + seq!['_'] + radix_digits(timestamp as nat, 10)
        + seq!['_'] + radix_digits(id as nat, 10)
}

/// The name of a temporary directory.
pub fn temp_dir_name_of(prefix: &str, pid: u32, timestamp: u128, id: u64) -> (r: String)
    ensures
        r@ == temp_dir_name(prefix@, pid, timestamp, id),
{
    let mut out: Vec<char> = Vec::new();
    push_str(&mut out, prefix);
    out.push('_');
    let p = radix_chars(pid as u128, 10);
    push_all(&mut out, p.as_slice());
    out.push('_');
    let t = radix_chars(timestamp, 10);
    push_all(&mut out, t.as_slice());
    out.push('_');
    let i = radix_chars(id as u128, 10);
    push_all(&mut out, i.as_slice());
    assert(out@ =~= temp_dir_name(prefix@, pid, timestamp, id));
    string_of(out.as_slice())
}

/// A temporary directory.
#[derive(Debug)]
pub struct TempDir {
    path: String,
    delete_on_drop: bool,
    persisted: bool,
    os: Os,
}

impl TempDir {
    /// The directory's path.
    pub closed spec fn path_view(&self) -> Seq<char> {
        self.path@
    }

    /// Whether the directory is removed when dropped.
    pub closed spec fn deletes(&self) -> bool {
        self.delete_on_drop
    }

    /// Whether the directory was persisted.
    pub closed spec fn is_persisted(&self) -> bool {
        self.persisted
    }

    /// The OS whose path conventions the directory follows.
    pub closed spec fn os_of(&self) -> Os {
        self.os
    }

    /// A temporary directory in `parent` named with `prefix`, the process
    /// ID, a timestamp in nanoseconds and a counter value; it is removed
    /// when dropped. The caller creates it on disk.
    pub fn in_dir_with_prefix(
        parent: &str,
        prefix: &str,
        pid: u32,
        timestamp: u128,
        id: u64,
        os: &Os,
    ) -> (r: Self)
        ensures
            r.path_view() == joined(parent@, temp_dir_name(prefix@, pid, timestamp, id), *os),
            r.deletes(),
            !r.is_persisted(),
            r.os_of() == *os,
    {
        let name = temp_dir_name_of(prefix, pid, timestamp, id);
        let base = chars_of(parent);
        let n = chars_of(name.as_str());
        let p = join_chars(base.as_slice(), n.as_slice(), os);
        TempDir { path: string_of(p.as_slice()), delete_on_drop: true, persisted: false, os: *os }
    }

    /// A temporary directory in `parent` with the prefix `tmp`.
    pub fn in_dir(parent: &str, pid: u32, timestamp: u128, id: u64, os: &Os) -> (r: Self)
        ensures
            r.path_view() == joined(parent@, temp_dir_name("tmp"@, pid, timestamp, id), *os),
            r.deletes(),
            !r.is_persisted(),
            r.os_of() == *os,
    {
        Self::in_dir_with_prefix(parent, "tmp", pid, timestamp, id, os)
    }

    /// Get the path to the temp directory.
    pub fn path(&self) -> (r: &str)
        ensures
            r@ == self.path_view(),
    {
        self.path.as_str()
    }

    /// Join a path to this temp directory.
    pub fn join(&self, path: &str) -> (r: String)
        ensures
            r@ == joined(self.path_view(), path@, self.os_of()),
    {
        let base = chars_of(self.path.as_str());
        let comp = chars_of(path);
        let j = join_chars(base.as_slice(), comp.as_slice(), &self.os);
        string_of(j.as_slice())
    }

    /// Persist the temp directory (don't delete on drop).
    pub fn persist(&mut self)
        ensures
            final(self).is_persisted(),
            !final(self).deletes(),
            final(self).path_view() == old(self).path_view(),
            final(self).os_of() == old(self).os_of(),
    {
        self.persisted = true;
        self.delete_on_drop = false;
    }

    /// Keep the temp directory (don't delete on drop).
    pub fn keep(&mut self)
        ensures
            !final(self).deletes(),
            final(self).is_persisted() == old(self).is_persisted(),
            final(self).path_view() == old(self).path_view(),
            final(self).os_of() == old(self).os_of(),
    {
        self.delete_on_drop = false;
    }

    /// Whether the directory is to be removed when dropped.
    pub fn delete_on_drop(&self) -> (r: bool)
        ensures
            r == self.deletes(),
    {
        self.delete_on_drop
    }

    /// Whether the directory was persisted.
    pub fn persisted(&self) -> (r: bool)
        ensures
            r == self.is_persisted(),
    {
        self.persisted
    }
}

/// The path of a new temporary file in `dir`: the name of a temporary
/// directory followed by `suffix`.
pub fn temp_file_path(
    dir: &str,
    prefix: &str,
    suffix: &str,
    pid: u32,
    timestamp: u128,
    id: u64,
    os: &Os,
) -> (r: String)
    ensures
        r@ == joined(dir@, temp_dir_name(prefix@, pid, timestamp, id) + suffix@, *os),
{
    let name = temp_dir_name_of(prefix, pid, timestamp, id);
    let mut n = chars_of(name.as_str());
    push_str(&mut n, suffix);
    let base = chars_of(dir);
    let p = join_chars(base.as_slice(), n.as_slice(), os);
    string_of(p.as_slice())
}

/// The name `tmp_{pid}_{id}` of a temporary path, numbers in decimal.
pub open spec fn temp_path_name(pid: u32, id: u64) -> Seq<char> {
    "tmp_"@ + radix_digits(pid as nat, 10) + seq!['_'] + radix_digits(id as nat, 10)
}

fn temp_path_chars(pid: u32, id: u64) -> (r: Vec<char>)
    ensures
        r@ == temp_path_name(pid, id),
{
    let mut out: Vec<char> = Vec::new();
    push_str(&mut out, "tmp_");
    let p = radix_chars(pid as u128, 10);
    push_all(&mut out, p.as_slice());
    out.push('_');
    let i = radix_chars(id as u128, 10);
    push_all(&mut out, i.as_slice());
    assert(out@ =~= temp_path_name(pid, id));
    out
}

/// A unique path in the temporary directory `temp_dir` (the file is not
/// created), from the process ID and a counter value.
pub fn temp_path(temp_dir: &str, pid: u32, id: u64, os: &Os) -> (r: String)
    ensures
        r@ == joined(temp_dir@, temp_path_name(pid, id), *os),
{
    let n = temp_path_chars(pid, id);
    let base = chars_of(temp_dir);
    let p = join_chars(base.as_slice(), n.as_slice(), os);
    string_of(p.as_slice())
}

/// An extension with a leading dot: as given when it starts with `.`,
/// otherwise with a dot put in front.
pub open spec fn dotted(ext: Seq<char>) -> Seq<char> {
    if ext.len() > 0 && ext[0] == '.' {
        ext
    } else {
        seq!['.'] + ext
    }
}

/// A unique path with the given extension in the temporary directory
/// `temp_dir` (the file is not created).
pub fn temp_path_with_ext(temp_dir: &str, pid: u32, id: u64, ext: &str, os: &Os) -> (r: String)
    ensures
        r@ == joined(temp_dir@, temp_path_name(pid, id) + dotted(ext@), *os),
{
    let mut n = temp_path_chars(pid, id);
    let e = chars_of(ext);
    if !(e.len() > 0 && e[0] == '.') {
        n.push('.');
    }
    let ghost before = n@;
    push_all(&mut n, e.as_slice());
    assert(n@ =~= temp_path_name(pid, id) + dotted(ext@));
    let base = chars_of(temp_dir);
    let p = join_chars(base.as_slice(), n.as_slice(), os);
    string_of(p.as_slice())
}

/// Registry of temporary files and directories to remove at cleanup.
#[derive(Debug)]
pub struct TempManager {
    paths: Vec<String>,
    cleanup_enabled: bool,
}

impl TempManager {
    /// The tracked paths, oldest first.
    pub closed spec fn registered(&self) -> Seq<Seq<char>> {
        self.paths@.map_values(|p: String| p@)
    }

    /// Whether cleanup removes the tracked paths.
    pub closed spec fn cleans(&self) -> bool {
        self.cleanup_enabled
    }

    /// Create a new temp manager with cleanup enabled and nothing tracked.
    pub fn new() -> (r: Self)
        ensures
            r.registered().len() == 0,
            r.cleans(),
    {
        let r = TempManager { paths: Vec::new(), cleanup_enabled: true };
        assert(r.registered() =~= Seq::<Seq<char>>::empty());
        r
    }

    /// Track a temporary file or directory that was created.
    pub fn track(&mut self, path: &str)
        ensures
            final(self).registered() == old(self).registered().push(path@),
            final(self).cleans() == old(self).cleans(),
    {
        self.paths.push(owned(path));
        assert(self.registered() =~= old(self).registered().push(path@));
    }

    /// Disable cleanup (useful for debugging).
    pub fn disable_cleanup(&mut self)
        ensures
            !final(self).cleans(),
            final(self).registered() == old(self).registered(),
    {
        self.cleanup_enabled = false;
    }

    /// Enable cleanup.
    pub fn enable_cleanup(&mut self)
        ensures
            final(self).cleans(),
            final(self).registered() == old(self).registered(),
    {
        self.cleanup_enabled = true;
    }

    /// Start a cleanup: with cleanup enabled, hand out every tracked path
    /// (the caller removes those that still exist) and forget them; with
    /// cleanup disabled, hand out nothing and keep them.
    pub fn cleanup(&mut self) -> (r: Vec<String>)
        ensures
            old(self).cleans() ==> r@.map_values(|p: String| p@) == old(self).registered()
                && final(self).registered().len() == 0,
            !old(self).cleans() ==> r@.len() == 0 && final(self).registered() == old(
                self,
            ).registered(),
            final(self).cleans() == old(self).cleans(),
    {
        if !self.cleanup_enabled {
            return Vec::new();
        }
        let mut taken: Vec<String> = Vec::new();
        std::mem::swap(&mut taken, &mut self.paths);
        assert(self.registered() =~= Seq::<Seq<char>>::empty());
        taken
    }

    /// Get count of tracked items.
    pub fn tracked_count(&self) -> (r: usize)
        ensures
            r == self.registered().len(),
    {
        self.paths.len()
    }
}

impl Default for TempManager {
    fn default() -> (r: Self)
        ensures
            r.registered().len() == 0,
            r.cleans(),
    {
        Self::new()
    }
}

} // verus!
