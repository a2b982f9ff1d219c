//! Unix-style file permission modes, read/write/execute triplets and Windows
//! file attributes, with the mode arithmetic that the permission operations
//! perform.
use vstd::prelude::*;
use crate::text::{pad_zeros, radix_chars, radix_digits, string_of, zero_padded};

verus! {

/// Whether any of the bits of `mask` is set in `mode`.
pub open spec fn has_bits(mode: u32, mask: u32) -> bool {
    mode & mask != 0
}

/// `c` when the flag is set, `-` otherwise.
pub open spec fn flag_char(set: bool, c: char) -> char {
    if set { c } else { '-' }
}

/// The execute column of a class that also carries a special bit
/// (setuid, setgid or sticky): `lower` for both, `x` for execute alone,
/// `upper` for the special bit alone, `-` for neither.
pub open spec fn special_char(exec: bool, special: bool, lower: char, upper: char) -> char {
    if exec && special {
        lower
    } else if exec {
        'x'
    } else if special {
        upper
    } else {
        '-'
    }
}

/// The nine-character symbolic form of a mode, as `ls -l` prints it.
pub open spec fn symbolic(m: u32) -> Seq<char> {
    seq![
        flag_char(has_bits(m, 0o400), 'r'),
        flag_char(has_bits(m, 0o200), 'w'),
        special_char(has_bits(m, 0o100), has_bits(m, 0o4000), 's', 'S'),
        flag_char(has_bits(m, 0o040), 'r'),
        flag_char(has_bits(m, 0o020), 'w'),
        special_char(has_bits(m, 0o010), has_bits(m, 0o2000), 's', 'S'),
        flag_char(has_bits(m, 0o004), 'r'),
        flag_char(has_bits(m, 0o002), 'w'),
        special_char(has_bits(m, 0o001), has_bits(m, 0o1000), 't', 'T'),
    ]
}

/// The mode with the execute bit added for every class that may read.
pub open spec fn executable_bits(m: u32) -> u32 {
    let a: u32 = if has_bits(m, 0o400) { m | 0o100 } else { m };
    let b: u32 = if has_bits(a, 0o040) { a | 0o010 } else { a };
    if has_bits(b, 0o004) { b | 0o001 } else { b }
}

/// File permission mode (Unix-style). The mode never has bits above the
/// permission, setuid, setgid and sticky bits (`0o7777`).
#[derive(Debug, Clone, Copy, PartialEq, Eq, Hash)]
pub struct FilePermissions {
    mode: u32,
}

impl View for FilePermissions {
    type V = u32;

    closed spec fn view(&self) -> u32 {
        self.mode
    }
}

/// Read-write-execute permission triplet: read is 4, write 2, execute 1.
#[derive(Debug, Clone, Copy, PartialEq, Eq, Hash)]
pub struct Rwx(u8);

impl View for Rwx {
    type V = u8;

    closed spec fn view(&self) -> u8 {
        self.0
    }
}

impl Rwx {
    #[verifier::type_invariant]
    spec fn bits_in_range(self) -> bool {
        self.0 <= 7
    }

    /// Create from individual flags.
    pub fn new(read: bool, write: bool, execute: bool) -> (r: Self)
        ensures
            r@ == (if read { 4u8 } else { 0u8 }) + (if write { 2u8 } else { 0u8 }) + (if execute {
                1u8
            } else {
                0u8
            }),
            (r@ & 4 != 0) == read,
            (r@ & 2 != 0) == write,
            (r@ & 1 != 0) == execute,
    {
        let mut bits: u8 = 0;
        if read {
            bits = bits + 4;
        }
        if write {
            bits = bits + 2;
        }
        if execute {
            bits = bits + 1;
        }
        proof {
            lemma_flag_bits(bits);
        }
        Rwx(bits)
    }

    /// Get raw bits.
    pub fn bits(&self) -> (r: u8)
        ensures
            r == self@,
            r <= 7,
    {
        proof {
            use_type_invariant(self);
        }
        self.0
    }

    /// No permissions.
    pub fn none() -> (r: Self)
        ensures
            r@ == 0,
    {
        Rwx(0)
    }

    /// Execute only.
    pub fn x() -> (r: Self)
        ensures
            r@ == 1,
    {
        Rwx(1)
    }

    /// Write only.
    pub fn w() -> (r: Self)
        ensures
            r@ == 2,
    {
        Rwx(2)
    }

    /// Write and execute.
    pub fn wx() -> (r: Self)
        ensures
            r@ == 3,
    {
        Rwx(3)
    }

    /// Read only.
    pub fn r() -> (r: Self)
        ensures
            r@ == 4,
    {
        Rwx(4)
    }

    /// Read and execute.
    pub fn rx() -> (r: Self)
        ensures
            r@ == 5,
    {
        Rwx(5)
    }

    /// Read and write.
    pub fn rw() -> (r: Self)
        ensures
            r@ == 6,
    {
        Rwx(6)
    }

    /// Read, write, and execute.
    pub fn rwx() -> (r: Self)
        ensures
            r@ == 7,
    {
        Rwx(7)
    }
}

proof fn lemma_flag_bits(b: u8)
    by (bit_vector)
    requires
        b <= 7,
    ensures
        (b & 4 != 0) == (b >= 4),
        (b & 2 != 0) == (b % 4 >= 2),
        (b & 1 != 0) == (b % 2 == 1),
{
}

proof fn lemma_mask_low(m: u32)
    by (bit_vector)
    ensures
        m & 0o7777 <= 0o7777,
        (m & 0o7777) & 0o7777 == m & 0o7777,
{
}

proof fn lemma_triplets(o: u32, g: u32, x: u32)
    by (bit_vector)
    requires
        o <= 7,
        g <= 7,
        x <= 7,
    ensures
        o * 64 + g * 8 + x == (o << 6) | (g << 3) | x,
        o * 64 + g * 8 + x <= 0o777,
        (((o * 64 + g * 8 + x) as u32) & 0o400 != 0) == (o & 4 != 0),
        (((o * 64 + g * 8 + x) as u32) & 0o200 != 0) == (o & 2 != 0),
        (((o * 64 + g * 8 + x) as u32) & 0o100 != 0) == (o & 1 != 0),
        (((o * 64 + g * 8 + x) as u32) & 0o040 != 0) == (g & 4 != 0),
        (((o * 64 + g * 8 + x) as u32) & 0o020 != 0) == (g & 2 != 0),
        (((o * 64 + g * 8 + x) as u32) & 0o010 != 0) == (g & 1 != 0),
        (((o * 64 + g * 8 + x) as u32) & 0o004 != 0) == (x & 4 != 0),
        (((o * 64 + g * 8 + x) as u32) & 0o002 != 0) == (x & 2 != 0),
        (((o * 64 + g * 8 + x) as u32) & 0o001 != 0) == (x & 1 != 0),
        (((o * 64 + g * 8 + x) as u32) & 0o7000 == 0),
{
}

proof fn lemma_u8_bits(b: u8, w: u32)
    by (bit_vector)
    requires
        w == b as u32,
    ensures
        (w & 4 != 0) == (b & 4 != 0),
        (w & 2 != 0) == (b & 2 != 0),
        (w & 1 != 0) == (b & 1 != 0),
{
}

impl FilePermissions {
    #[verifier::type_invariant]
    spec fn mode_in_range(self) -> bool {
        self.mode <= 0o7777
    }

    /// Create from raw mode bits; bits above `0o7777` are dropped.
    pub fn from_mode(mode: u32) -> (r: Self)
        ensures
            r@ == mode & 0o7777,
    {
        proof {
            lemma_mask_low(mode);
        }
        FilePermissions { mode: mode & 0o7777 }
    }

    /// Create from rwx flags: owner, group and other triplets.
    pub fn from_rwx(owner: Rwx, group: Rwx, other: Rwx) -> (r: Self)
        ensures
            r@ == (owner@ as u32) * 64 + (group@ as u32) * 8 + (other@ as u32),
            r@ == ((owner@ as u32) << 6) | ((group@ as u32) << 3) | (other@ as u32),
            has_bits(r@, 0o400) == (owner@ & 4 != 0),
            has_bits(r@, 0o200) == (owner@ & 2 != 0),
            has_bits(r@, 0o100) == (owner@ & 1 != 0),
            has_bits(r@, 0o040) == (group@ & 4 != 0),
            has_bits(r@, 0o020) == (group@ & 2 != 0),
            has_bits(r@, 0o010) == (group@ & 1 != 0),
            has_bits(r@, 0o004) == (other@ & 4 != 0),
            has_bits(r@, 0o002) == (other@ & 2 != 0),
            has_bits(r@, 0o001) == (other@ & 1 != 0),
            !has_bits(r@, 0o7000),
    {
        let o = owner.bits() as u32;
        let g = group.bits() as u32;
        let x = other.bits() as u32;
        proof {
            lemma_triplets(o, g, x);
            lemma_u8_bits(owner@, o);
            lemma_u8_bits(group@, g);
            lemma_u8_bits(other@, x);
        }
        FilePermissions { mode: o * 64 + g * 8 + x }
    }

    /// Get raw mode bits.
    pub fn mode(&self) -> (r: u32)
        ensures
            r == self@,
            r <= 0o7777,
    {
        proof {
            use_type_invariant(self);
        }
        self.mode
    }

    /// Check if owner can read.
    pub fn owner_read(&self) -> (r: bool)
        ensures
            r == has_bits(self@, 0o400),
    {
        self.mode & 0o400 != 0
    }

    /// Check if owner can write.
    pub fn owner_write(&self) -> (r: bool)
        ensures
            r == has_bits(self@, 0o200),
    {
        self.mode & 0o200 != 0
    }

    /// Check if owner can execute.
    pub fn owner_execute(&self) -> (r: bool)
        ensures
            r == has_bits(self@, 0o100),
    {
        self.mode & 0o100 != 0
    }

    /// Check if group can read.
    pub fn group_read(&self) -> (r: bool)
        ensures
            r == has_bits(self@, 0o040),
    {
        self.mode & 0o040 != 0
    }

    /// Check if group can write.
    pub fn group_write(&self) -> (r: bool)
        ensures
            r == has_bits(self@, 0o020),
    {
        self.mode & 0o020 != 0
    }

    /// Check if group can execute.
    pub fn group_execute(&self) -> (r: bool)
        ensures
            r == has_bits(self@, 0o010),
    {
        self.mode & 0o010 != 0
    }

    /// Check if others can read.
    pub fn other_read(&self) -> (r: bool)
        ensures
            r == has_bits(self@, 0o004),
    {
        self.mode & 0o004 != 0
    }

    /// Check if others can write.
    pub fn other_write(&self) -> (r: bool)
        ensures
            r == has_bits(self@, 0o002),
    {
        self.mode & 0o002 != 0
    }

    /// Check if others can execute.
    pub fn other_execute(&self) -> (r: bool)
        ensures
            r == has_bits(self@, 0o001),
    {
        self.mode & 0o001 != 0
    }

    /// Check if setuid bit is set.
    pub fn setuid(&self) -> (r: bool)
        ensures
            r == has_bits(self@, 0o4000),
    {
        self.mode & 0o4000 != 0
    }

    /// Check if setgid bit is set.
    pub fn setgid(&self) -> (r: bool)
        ensures
            r == has_bits(self@, 0o2000),
    {
        self.mode & 0o2000 != 0
    }

    /// Check if sticky bit is set.
    pub fn sticky(&self) -> (r: bool)
        ensures
            r == has_bits(self@, 0o1000),
    {
        self.mode & 0o1000 != 0
    }

    /// Check if file is readable (by anyone).
    pub fn is_readable(&self) -> (r: bool)
        ensures
            r == has_bits(self@, 0o444),
    {
        self.mode & 0o444 != 0
    }

    /// Check if file is writable (by anyone).
    pub fn is_writable(&self) -> (r: bool)
        ensures
            r == has_bits(self@, 0o222),
    {
        self.mode & 0o222 != 0
    }

    /// Check if file is executable (by anyone).
    pub fn is_executable(&self) -> (r: bool)
        ensures
            r == has_bits(self@, 0o111),
    {
        self.mode & 0o111 != 0
    }

    /// Common permission: readable by all, writable by owner (0o644).
    pub fn file_default() -> (r: Self)
        ensures
            r@ == 0o644,
    {
        FilePermissions { mode: 0o644 }
    }

    /// Common permission: executable by all, writable by owner (0o755).
    pub fn executable() -> (r: Self)
        ensures
            r@ == 0o755,
    {
        FilePermissions { mode: 0o755 }
    }

    /// Common permission: directory default (0o755).
    pub fn dir_default() -> (r: Self)
        ensures
            r@ == 0o755,
    {
        FilePermissions { mode: 0o755 }
    }

    /// Common permission: private file (0o600).
    pub fn private() -> (r: Self)
        ensures
            r@ == 0o600,
    {
        FilePermissions { mode: 0o600 }
    }

    /// Common permission: private directory (0o700).
    pub fn private_dir() -> (r: Self)
        ensures
            r@ == 0o700,
    {
        FilePermissions { mode: 0o700 }
    }

    /// Format as symbolic string (e.g., "rwxr-xr-x").
    pub fn to_symbolic(&self) -> (r: String)
        ensures
            r@ == symbolic(self@),
    {
        let c0 = if self.owner_read() { 'r' } else { '-' };
        let c1 = if self.owner_write() { 'w' } else { '-' };
        let c2 = symbolic_exec(self.owner_execute(), self.setuid(), 's', 'S');
        let c3 = if self.group_read() { 'r' } else { '-' };
        let c4 = if self.group_write() { 'w' } else { '-' };
        let c5 = symbolic_exec(self.group_execute(), self.setgid(), 's', 'S');
        let c6 = if self.other_read() { 'r' } else { '-' };
        let c7 = if self.other_write() { 'w' } else { '-' };
        let c8 = symbolic_exec(self.other_execute(), self.sticky(), 't', 'T');
        let s: Vec<char> = vec![c0, c1, c2, c3, c4, c5, c6, c7, c8];
        assert(s@ =~= symbolic(self@));
        string_of(s.as_slice())
    }

    /// The mode in octal, zero-padded to four digits (e.g., "0755").
    pub fn to_string(&self) -> (r: String)
        ensures
            r@ == zero_padded(radix_digits(self@ as nat, 8), 4),
    {
        let digits = radix_chars(self.mode as u128, 8);
        let padded = pad_zeros(digits.as_slice(), 4);
        string_of(padded.as_slice())
    }
}

impl Default for FilePermissions {
    fn default() -> (r: Self)
        ensures
            r@ == 0o644,
    {
        FilePermissions::file_default()
    }
}

fn symbolic_exec(exec: bool, special: bool, lower: char, upper: char) -> (r: char)
    ensures
        r == special_char(exec, special, lower, upper),
{
    if exec && special {
        lower
    } else if exec {
        'x'
    } else if special {
        upper
    } else {
        '-'
    }
}

/// Adding execute bits: a class gains execute exactly when it could read,
/// every other bit is kept, and adding them twice changes nothing.
pub proof fn lemma_executable_bits(m: u32)
    by (bit_vector)
    ensures
        has_bits(executable_bits(m), 0o100) == (has_bits(m, 0o100) || has_bits(m, 0o400)),
        has_bits(executable_bits(m), 0o010) == (has_bits(m, 0o010) || has_bits(m, 0o040)),
        has_bits(executable_bits(m), 0o001) == (has_bits(m, 0o001) || has_bits(m, 0o004)),
        executable_bits(m) & !0o111u32 == m & !0o111u32,
        executable_bits(executable_bits(m)) == executable_bits(m),
        m <= 0o7777 ==> executable_bits(m) <= 0o7777,
{
}

/// Removing write bits: no class can write afterwards, every other bit is
/// kept, and removing them twice changes nothing.
pub proof fn lemma_readonly_bits(m: u32)
    by (bit_vector)
    ensures
        !has_bits(m & !0o222u32, 0o222),
        (m & !0o222u32) & !0o222u32 == m & !0o222u32,
        m <= 0o7777 ==> (m & !0o222u32) <= 0o7777,
        (m & !0o222u32) | (m & 0o222u32) == m,
{
}

/// Platform permission operations. Reading and writing the mode of a file
/// is done by the caller; this type computes the modes they write.
#[derive(Debug, Clone, Copy)]
pub struct PlatformPermissions;

impl PlatformPermissions {
    /// The mode that makes a file executable: the execute bit is added for
    /// every class (owner, group, other) that can read.
    pub fn executable_mode(current: FilePermissions) -> (r: FilePermissions)
        ensures
            r@ == executable_bits(current@),
    {
        let mut mode = current.mode();
        if mode & 0o400 != 0 {
            mode = mode | 0o100;
        }
        if mode & 0o040 != 0 {
            mode = mode | 0o010;
        }
        if mode & 0o004 != 0 {
            mode = mode | 0o001;
        }
        proof {
            lemma_executable_bits(current@);
            lemma_mask_keeps(executable_bits(current@));
        }
        FilePermissions::from_mode(mode)
    }

    /// The mode that makes a file read-only: every write bit is removed.
    pub fn readonly_mode(current: FilePermissions) -> (r: FilePermissions)
        ensures
            r@ == current@ & !0o222u32,
    {
        let mode = current.mode() & !0o222u32;
        proof {
            lemma_readonly_bits(current@);
            lemma_mask_keeps(mode);
        }
        FilePermissions::from_mode(mode)
    }

    /// The mode reported for a file on a platform that only knows a
    /// read-only flag: `0o444` when read-only, `0o644` otherwise.
    pub fn mode_from_readonly(readonly: bool) -> (r: FilePermissions)
        ensures
            r@ == (if readonly { 0o444u32 } else { 0o644u32 }),
    {
        if readonly {
            FilePermissions { mode: 0o444 }
        } else {
            FilePermissions { mode: 0o644 }
        }
    }
}

proof fn lemma_mask_keeps(m: u32)
    by (bit_vector)
    requires
        m <= 0o7777,
    ensures
        m & 0o7777 == m,
{
}

/// What `geteuid` returned: the effective user ID of this process.
#[verifier::external_body]
fn effective_uid() -> u32 {
    nix::unistd::geteuid().as_raw()
}

/// Whether a user ID is the superuser's.
pub fn is_root_uid(uid: u32) -> (r: bool)
    ensures
        r == (uid == 0),
{
    uid == 0
}

/// Check if running as root (the effective user ID is 0). The user ID is
/// read from the process, so nothing is stated of the answer beyond
/// `is_root_uid`.
pub fn is_root() -> bool {
    let uid = effective_uid();
    is_root_uid(uid)
}

/// Windows file attributes.
#[derive(Debug, Clone, Copy, PartialEq, Eq, Hash)]
pub struct FileAttributes(pub u32);

impl FileAttributes {
    pub const READONLY: u32 = 0x1;
    pub const HIDDEN: u32 = 0x2;
    pub const SYSTEM: u32 = 0x4;
    pub const DIRECTORY: u32 = 0x10;
    pub const ARCHIVE: u32 = 0x20;
    pub const DEVICE: u32 = 0x40;
    pub const NORMAL: u32 = 0x80;
    pub const TEMPORARY: u32 = 0x100;
    pub const SPARSE_FILE: u32 = 0x200;
    pub const REPARSE_POINT: u32 = 0x400;
    pub const COMPRESSED: u32 = 0x800;
    pub const OFFLINE: u32 = 0x1000;
    pub const NOT_CONTENT_INDEXED: u32 = 0x2000;
    pub const ENCRYPTED: u32 = 0x4000;

    /// Create from raw attributes.
    pub fn from_raw(attrs: u32) -> (r: Self)
        ensures
            r.0 == attrs,
    {
        FileAttributes(attrs)
    }

    /// Get raw attributes.
    pub fn raw(&self) -> (r: u32)
        ensures
            r == self.0,
    {
        self.0
    }

    /// Check if read-only.
    pub fn is_readonly(&self) -> (r: bool)
        ensures
            r == has_bits(self.0, 0x1),
    {
        self.0 & Self::READONLY != 0
    }

    /// Check if hidden.
    pub fn is_hidden(&self) -> (r: bool)
        ensures
            r == has_bits(self.0, 0x2),
    {
        self.0 & Self::HIDDEN != 0
    }

    /// Check if system file.
    pub fn is_system(&self) -> (r: bool)
        ensures
            r == has_bits(self.0, 0x4),
    {
        self.0 & Self::SYSTEM != 0
    }

    /// Check if directory.
    pub fn is_directory(&self) -> (r: bool)
        ensures
            r == has_bits(self.0, 0x10),
    {
        self.0 & Self::DIRECTORY != 0
    }

    /// Check if archive flag is set.
    pub fn is_archive(&self) -> (r: bool)
        ensures
            r == has_bits(self.0, 0x20),
    {
        self.0 & Self::ARCHIVE != 0
    }

    /// Check if temporary.
    pub fn is_temporary(&self) -> (r: bool)
        ensures
            r == has_bits(self.0, 0x100),
    {
        self.0 & Self::TEMPORARY != 0
    }

    /// Check if compressed.
    pub fn is_compressed(&self) -> (r: bool)
        ensures
            r == has_bits(self.0, 0x800),
    {
        self.0 & Self::COMPRESSED != 0
    }

    /// Check if encrypted.
    pub fn is_encrypted(&self) -> (r: bool)
        ensures
            r == has_bits(self.0, 0x4000),
    {
        self.0 & Self::ENCRYPTED != 0
    }
}

/// Setting or clearing one attribute flag leaves it as asked and keeps
/// every other attribute.
pub proof fn lemma_flag_update(a: u32, flag: u32, on: bool)
    by (bit_vector)
    requires
        flag == 0x2 || flag == 0x4,
    ensures
        has_bits((if on { a | flag } else { a & !flag }), flag) == on,
        (if on { a | flag } else { a & !flag }) & !flag == a & !flag,
{
}

/// Set or clear the hidden attribute.
pub fn set_hidden(attrs: &mut FileAttributes, hidden: bool)
    ensures
        final(attrs).0 == (if hidden { old(attrs).0 | 0x2 } else { old(attrs).0 & !0x2u32 }),
        has_bits(final(attrs).0, 0x2) == hidden,
        final(attrs).0 & !0x2u32 == old(attrs).0 & !0x2u32,
{
    proof {
        lemma_flag_update(attrs.0, 0x2, hidden);
    }
    if hidden {
        attrs.0 = attrs.0 | FileAttributes::HIDDEN;
    } else {
        attrs.0 = attrs.0 & !FileAttributes::HIDDEN;
    }
}

/// Set or clear the system attribute.
pub fn set_system(attrs: &mut FileAttributes, system: bool)
    ensures
        final(attrs).0 == (if system { old(attrs).0 | 0x4 } else { old(attrs).0 & !0x4u32 }),
        has_bits(final(attrs).0, 0x4) == system,
        final(attrs).0 & !0x4u32 == old(attrs).0 & !0x4u32,
{
    proof {
        lemma_flag_update(attrs.0, 0x4, system);
    }
    if system {
        attrs.0 = attrs.0 | FileAttributes::SYSTEM;
    } else {
        attrs.0 = attrs.0 & !FileAttributes::SYSTEM;
    }
}

} // verus!
