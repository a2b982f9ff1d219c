//! Platform description: operating system, architecture, kernel version and
//! the per-platform conventions derived from them.
use vstd::prelude::*;
use crate::cpu::CpuFeatures;
use crate::error::PlatformError;
use crate::io::IoBackend;
use crate::shell::ShellType;
use crate::path::{joined, join_chars};
use crate::text::{
    chars_of, find_chars, find_from, owned, parse_u32, parsed_u32, split_chars, split_on,
    split_words, string_of, to_uppercase, trim, trim_chars, uppercase_of, words, views,
    lemma_find_from_bounds, lemma_split_on_nonempty,
};

verus! {

/// Operating system.
#[derive(Debug, Clone, Copy, PartialEq, Eq, Structural, Hash)]
pub enum Os {
    /// Linux.
    Linux,
    /// macOS.
    MacOs,
    /// Windows.
    Windows,
    /// Unknown OS.
    Unknown,
}

/// OS family classification.
#[derive(Debug, Clone, Copy, PartialEq, Eq, Structural, Hash)]
pub enum OsFamily {
    /// Unix-like (Linux, macOS, BSD).
    Unix,
    /// Windows.
    Windows,
    /// Unknown.
    Unknown,
}

/// CPU architecture.
#[derive(Debug, Clone, Copy, PartialEq, Eq, Structural, Hash)]
pub enum Arch {
    /// `x86_64` / AMD64.
    X86_64,
    /// ARM64 / `AArch64`.
    Aarch64,
    /// Unknown architecture.
    Unknown,
}

/// OS name as used in package metadata.
pub open spec fn os_name(os: Os) -> Seq<char> {
    match os {
        Os::Linux => "linux"@,
        Os::MacOs => "darwin"@,
        Os::Windows => "windows"@,
        Os::Unknown => "unknown"@,
    }
}

/// The family an OS belongs to.
pub open spec fn family_of(os: Os) -> OsFamily {
    match os {
        Os::Linux | Os::MacOs => OsFamily::Unix,
        Os::Windows => OsFamily::Windows,
        Os::Unknown => OsFamily::Unknown,
    }
}

/// Architecture name.
pub open spec fn arch_name(a: Arch) -> Seq<char> {
    match a {
        Arch::X86_64 => "x86_64"@,
        Arch::Aarch64 => "aarch64"@,
        Arch::Unknown => "unknown"@,
    }
}

/// The debug name of an OS (its variant name).
pub open spec fn os_debug_name(os: Os) -> Seq<char> {
    match os {
        Os::Linux => "Linux"@,
        Os::MacOs => "MacOs"@,
        Os::Windows => "Windows"@,
        Os::Unknown => "Unknown"@,
    }
}

/// The debug name of an architecture (its variant name).
pub open spec fn arch_debug_name(a: Arch) -> Seq<char> {
    match a {
        Arch::X86_64 => "X86_64"@,
        Arch::Aarch64 => "Aarch64"@,
        Arch::Unknown => "Unknown"@,
    }
}

/// Path separator of an OS.
pub open spec fn separator_of(os: Os) -> char {
    if os == Os::Windows { '\\' } else { '/' }
}

/// Executable file extension of an OS.
pub open spec fn exe_extension_of(os: Os) -> Seq<char> {
    if os == Os::Windows { ".exe"@ } else { ""@ }
}

/// Whether the usual file system of an OS is case sensitive.
pub open spec fn case_sensitive_of(os: Os) -> bool {
    match os {
        Os::Linux => true,
        Os::MacOs | Os::Windows => false,
        Os::Unknown => true,
    }
}

/// Whether an OS and architecture form a supported platform.
pub open spec fn supported(os: Os, arch: Arch) -> bool {
    os != Os::Unknown && arch != Arch::Unknown
}

impl Os {
    /// Get OS name string.
    pub fn as_str(self) -> (r: &'static str)
        ensures
            r@ == os_name(self),
    {
        match self {
            Os::Linux => "linux",
            Os::MacOs => "darwin",
            Os::Windows => "windows",
            Os::Unknown => "unknown",
        }
    }

    /// Get OS family.
    pub fn family(self) -> (r: OsFamily)
        ensures
            r == family_of(self),
    {
        match self {
            Os::Linux | Os::MacOs => OsFamily::Unix,
            Os::Windows => OsFamily::Windows,
            Os::Unknown => OsFamily::Unknown,
        }
    }

    /// The debug name of the OS.
    fn debug_name(self) -> (r: String)
        ensures
            r@ == os_debug_name(self),
    {
        match self {
            Os::Linux => owned("Linux"),
            Os::MacOs => owned("MacOs"),
            Os::Windows => owned("Windows"),
            Os::Unknown => owned("Unknown"),
        }
    }
}

impl Arch {
    /// Get architecture name string.
    pub fn as_str(self) -> (r: &'static str)
        ensures
            r@ == arch_name(self),
    {
        match self {
            Arch::X86_64 => "x86_64",
            Arch::Aarch64 => "aarch64",
            Arch::Unknown => "unknown",
        }
    }

    /// Get pointer width in bits; for an unknown architecture, the width
    /// of this build's `usize`.
    pub fn pointer_width(self) -> (r: usize)
        ensures
            r == (match self {
                Arch::X86_64 | Arch::Aarch64 => 64,
                Arch::Unknown => usize::BITS as usize,
            }),
    {
        match self {
            Arch::X86_64 | Arch::Aarch64 => 64,
            Arch::Unknown => usize::BITS as usize,
        }
    }

    /// The debug name of the architecture.
    fn debug_name(self) -> (r: String)
        ensures
            r@ == arch_debug_name(self),
    {
        match self {
            Arch::X86_64 => owned("X86_64"),
            Arch::Aarch64 => owned("Aarch64"),
            Arch::Unknown => owned("Unknown"),
        }
    }
}

/// Path separator of an OS.
pub fn path_separator(os: &Os) -> (r: char)
    ensures
        r == separator_of(*os),
{
    match os {
        Os::Windows => '\\',
        _ => '/',
    }
}

/// Executable extension of an OS.
pub fn exe_extension(os: &Os) -> (r: &'static str)
    ensures
        r@ == exe_extension_of(*os),
{
    match os {
        Os::Windows => ".exe",
        _ => "",
    }
}

/// Normalize an environment variable name for an OS: upper case on
/// Windows, whose variable names ignore case, unchanged elsewhere.
pub fn normalize_var_name(name: &str, os: &Os) -> (r: String)
    ensures
        r@ == (if *os == Os::Windows { uppercase_of(name@) } else { name@ }),
{
    match os {
        Os::Windows => to_uppercase(name),
        _ => owned(name),
    }
}

/// Kernel version information.
#[derive(Debug, Clone, PartialEq, Eq)]
pub struct KernelVersion {
    /// Major version.
    pub major: u32,
    /// Minor version.
    pub minor: u32,
    /// Patch version.
    pub patch: u32,
    /// Full version string.
    pub full: String,
}

/// The value of field `k` of a version, or 0 when it is missing or is not
/// a number.
pub open spec fn field_or_zero(parts: Seq<Seq<char>>, k: int) -> u32 {
    if k < parts.len() {
        match parsed_u32(parts[k]) {
            Some(v) => v,
            None => 0,
        }
    } else {
        0
    }
}

/// (major, minor, patch) of a version string whose fields are separated by
/// `.` or `-`: the major field must be a number; a missing or malformed
/// minor or patch field counts as 0.
pub open spec fn version_numbers(version: Seq<char>) -> Option<(u32, u32, u32)> {
    let parts = split_on(version, '.', '-');
    match parsed_u32(parts[0]) {
        Some(major) => Some((major, field_or_zero(parts, 1), field_or_zero(parts, 2))),
        None => None,
    }
}

/// Whether a kernel version value holds the numbers of `version` and the
/// text `full`.
pub open spec fn version_matches(k: KernelVersion, version: Seq<char>, full: Seq<char>) -> bool {
    version_numbers(version) == Some((k.major, k.minor, k.patch)) && k.full@ == full
}

/// The version text of `/proc/version`: its third whitespace-separated word.
pub open spec fn proc_version_word(full: Seq<char>) -> Option<Seq<char>> {
    if words(full).len() > 2 {
        Some(words(full)[2])
    } else {
        None
    }
}

/// The marker that precedes the version in the output of `ver`.
pub open spec fn version_marker() -> Seq<char> {
    seq!['V', 'e', 'r', 's', 'i', 'o', 'n', ' ']
}

/// The version text in the (trimmed) output of `ver`, such as
/// `Microsoft Windows [Version 10.0.19041.1234]`: from after `Version ` up
/// to the first `]`.
pub open spec fn ver_output_version(text: Seq<char>) -> Option<Seq<char>> {
    match (find_from(text, version_marker(), 0), find_from(text, seq![']'], 0)) {
        (Some(a), Some(b)) => Some(text.subrange(a + 8, b)),
        _ => None,
    }
}

/// Whether the `]` of `ver` output comes after its version marker, as the
/// extraction of the version text needs.
pub open spec fn ver_output_ordered(text: Seq<char>) -> bool {
    match (find_from(text, version_marker(), 0), find_from(text, seq![']'], 0)) {
        (Some(a), Some(b)) => a + 8 <= b,
        _ => true,
    }
}

/// What kernel version detection yields for an OS from the text it read:
/// `/proc/version` on Linux, the output of `sw_vers -productVersion` on
/// macOS, the output of `ver` on Windows.
pub open spec fn detected_version(os: Os, output: Option<Seq<char>>) -> Option<(Seq<char>, Seq<char>)> {
    match output {
        None => None,
        Some(text) => match os {
            Os::Linux => match proc_version_word(text) {
                Some(w) => Some((w, text)),
                None => None,
            },
            Os::MacOs => Some((trim(text), trim(text))),
            Os::Windows => match ver_output_version(trim(text)) {
                Some(v) => Some((v, trim(text))),
                None => None,
            },
            Os::Unknown => None,
        },
    }
}

/// The outcome of a kernel version detection.
pub open spec fn detection_matches(r: Option<KernelVersion>, found: Option<(Seq<char>, Seq<char>)>) -> bool {
    match found {
        None => r is None,
        Some((version, full)) => match r {
            Some(k) => version_matches(k, version, full),
            None => version_numbers(version) is None,
        },
    }
}

impl KernelVersion {
    /// Parse a version string; `full` is kept as the full text.
    pub fn parse_version(version: &str, full: &str) -> (r: Option<Self>)
        ensures
            match r {
                Some(k) => version_matches(k, version@, full@),
                None => version_numbers(version@) is None,
            },
    {
        let chars = chars_of(version);
        Self::parse_version_chars(chars.as_slice(), full)
    }

    fn parse_version_chars(version: &[char], full: &str) -> (r: Option<Self>)
        ensures
            match r {
                Some(k) => version_matches(k, version@, full@),
                None => version_numbers(version@) is None,
            },
    {
        let parts = split_chars(version, '.', '-');
        proof {
            lemma_split_on_nonempty(version@, '.', '-');
        }
        let major = match parse_u32(parts[0].as_slice()) {
            Some(v) => v,
            None => {
                return None;
            },
        };
        let minor = if parts.len() > 1 {
            match parse_u32(parts[1].as_slice()) {
                Some(v) => v,
                None => 0,
            }
        } else {
            0
        };
        let patch = if parts.len() > 2 {
            match parse_u32(parts[2].as_slice()) {
                Some(v) => v,
                None => 0,
            }
        } else {
            0
        };
        Some(KernelVersion { major, minor, patch, full: owned(full) })
    }

    /// Kernel version from the contents of `/proc/version`.
    pub fn from_proc_version(full: &str) -> (r: Option<Self>)
        ensures
            detection_matches(r, detected_version(Os::Linux, Some(full@))),
    {
        let chars = chars_of(full);
        let w = split_words(chars.as_slice());
        if w.len() > 2 {
            proof {
                assert(w@[2]@ == views(w@)[2]);
            }
            Self::parse_version(w[2].as_str(), full)
        } else {
            None
        }
    }

    /// Kernel version from the output of `sw_vers -productVersion`.
    pub fn from_sw_vers(output: &str) -> (r: Option<Self>)
        ensures
            detection_matches(r, detected_version(Os::MacOs, Some(output@))),
    {
        let chars = chars_of(output);
        let t = trim_chars(chars.as_slice());
        let text = string_of(t.as_slice());
        Self::parse_version_chars(t.as_slice(), text.as_str())
    }

    /// Kernel version from the output of `ver`.
    pub fn from_ver_output(output: &str) -> (r: Option<Self>)
        requires
            ver_output_ordered(trim(output@)),
        ensures
            detection_matches(r, detected_version(Os::Windows, Some(output@))),
    {
        let chars = chars_of(output);
        let t = trim_chars(chars.as_slice());
        let text = string_of(t.as_slice());
        let marker: Vec<char> = vec!['V', 'e', 'r', 's', 'i', 'o', 'n', ' '];
        let close: Vec<char> = vec![']'];
        assert(marker@ =~= version_marker());
        assert(close@ =~= seq![']']);
        let a = match find_chars(t.as_slice(), marker.as_slice()) {
            Some(a) => a,
            None => {
                return None;
            },
        };
        let b = match find_chars(t.as_slice(), close.as_slice()) {
            Some(b) => b,
            None => {
                return None;
            },
        };
        proof {
            lemma_find_from_bounds(t@, marker@, 0);
            lemma_find_from_bounds(t@, close@, 0);
        }
        let v = crate::text::slice_chars(t.as_slice(), a + 8, b);
        Self::parse_version_chars(v.as_slice(), text.as_str())
    }

    /// Kernel version of an OS from the text read for it (see
    /// [`detected_version`]); `None` when nothing could be read.
    pub fn detect(os: &Os, output: Option<&str>) -> (r: Option<Self>)
        requires
            match output {
                Some(text) => *os == Os::Windows ==> ver_output_ordered(trim(text@)),
                None => true,
            },
        ensures
            detection_matches(
                r,
                detected_version(*os, match output { Some(t) => Some(t@), None => None }),
            ),
    {
        match output {
            None => None,
            Some(text) => match os {
                Os::Linux => Self::from_proc_version(text),
                Os::MacOs => Self::from_sw_vers(text),
                Os::Windows => Self::from_ver_output(text),
                Os::Unknown => None,
            },
        }
    }
}

/// Comprehensive platform information.
#[derive(Debug, Clone)]
pub struct Platform {
    /// Operating system.
    pub os: Os,
    /// CPU architecture.
    pub arch: Arch,
    /// CPU features (SIMD capabilities).
    pub cpu_features: CpuFeatures,
    /// Home directory.
    pub home_dir: String,
    /// Cache directory (XDG compliant).
    pub cache_dir: String,
    /// Config directory (XDG compliant).
    pub config_dir: String,
    /// Data directory (XDG compliant).
    pub data_dir: String,
    /// Temporary directory.
    pub temp_dir: String,
    /// Available I/O backend.
    pub io_backend: IoBackend,
    /// Default shell.
    pub default_shell: ShellType,
    /// Path separator.
    pub path_separator: char,
    /// Executable extension.
    pub exe_extension: &'static str,
    /// Case-sensitive filesystem.
    pub case_sensitive_fs: bool,
    /// Kernel version (where applicable).
    pub kernel_version: Option<KernelVersion>,
}

/// The directories a platform description records.
#[derive(Debug, Clone)]
pub struct PlatformDirs {
    /// Home directory.
    pub home_dir: String,
    /// Cache directory.
    pub cache_dir: String,
    /// Config directory.
    pub config_dir: String,
    /// Data directory.
    pub data_dir: String,
    /// Temporary directory.
    pub temp_dir: String,
}

impl Platform {
    /// Assemble the platform description from what was detected; the path
    /// separator, executable extension and case sensitivity follow from the
    /// OS.
    pub fn from_parts(
        os: Os,
        arch: Arch,
        cpu_features: CpuFeatures,
        dirs: PlatformDirs,
        io_backend: IoBackend,
        default_shell: ShellType,
        kernel_version: Option<KernelVersion>,
    ) -> (r: Self)
        ensures
            r.os == os,
            r.arch == arch,
            r.cpu_features == cpu_features,
            r.home_dir == dirs.home_dir,
            r.cache_dir == dirs.cache_dir,
            r.config_dir == dirs.config_dir,
            r.data_dir == dirs.data_dir,
            r.temp_dir == dirs.temp_dir,
            r.io_backend == io_backend,
            r.default_shell == default_shell,
            r.path_separator == separator_of(os),
            r.exe_extension@ == exe_extension_of(os),
            r.case_sensitive_fs == case_sensitive_of(os),
            r.kernel_version == kernel_version,
    {
        Platform {
            os,
            arch,
            cpu_features,
            home_dir: dirs.home_dir,
            cache_dir: dirs.cache_dir,
            config_dir: dirs.config_dir,
            data_dir: dirs.data_dir,
            temp_dir: dirs.temp_dir,
            io_backend,
            default_shell,
            path_separator: Self::get_path_separator(&os),
            exe_extension: Self::get_exe_extension(&os),
            case_sensitive_fs: Self::detect_case_sensitivity(&os),
            kernel_version,
        }
    }

    /// Check if running on Windows.
    pub fn is_windows(&self) -> (r: bool)
        ensures
            r == (self.os == Os::Windows),
    {
        matches!(self.os, Os::Windows)
    }

    /// Check if running on macOS.
    pub fn is_macos(&self) -> (r: bool)
        ensures
            r == (self.os == Os::MacOs),
    {
        matches!(self.os, Os::MacOs)
    }

    /// Check if running on Linux.
    pub fn is_linux(&self) -> (r: bool)
        ensures
            r == (self.os == Os::Linux),
    {
        matches!(self.os, Os::Linux)
    }

    /// Check if running on Unix (Linux or macOS).
    pub fn is_unix(&self) -> (r: bool)
        ensures
            r == (self.os == Os::Linux || self.os == Os::MacOs),
    {
        matches!(self.os, Os::Linux | Os::MacOs)
    }

    /// Check if `x86_64` architecture.
    pub fn is_x86_64(&self) -> (r: bool)
        ensures
            r == (self.arch == Arch::X86_64),
    {
        matches!(self.arch, Arch::X86_64)
    }

    /// Check if ARM64 architecture.
    pub fn is_aarch64(&self) -> (r: bool)
        ensures
            r == (self.arch == Arch::Aarch64),
    {
        matches!(self.arch, Arch::Aarch64)
    }

    /// Composer's home directory: the value of `COMPOSER_HOME` when it is
    /// set (`composer_home_var`), otherwise the configuration directory.
    pub fn composer_home(&self, composer_home_var: Option<&str>) -> (r: String)
        ensures
            r@ == (match composer_home_var {
                Some(v) => v@,
                None => self.config_dir@,
            }),
    {
        match composer_home_var {
            Some(v) => owned(v),
            None => self.config_dir.clone(),
        }
    }

    /// Get vendor binary directory: `<project_root>/vendor/bin`.
    pub fn vendor_bin_dir(&self, project_root: &str) -> (r: String)
        ensures
            r@ == joined(joined(project_root@, seq!['v', 'e', 'n', 'd', 'o', 'r'], self.os), seq!['b', 'i', 'n'], self.os),
    {
        let root = chars_of(project_root);
        let vendor: Vec<char> = vec!['v', 'e', 'n', 'd', 'o', 'r'];
        let bin: Vec<char> = vec!['b', 'i', 'n'];
        let v = join_chars(root.as_slice(), vendor.as_slice(), &self.os);
        let r = join_chars(v.as_slice(), bin.as_slice(), &self.os);
        assert(vendor@ =~= seq!['v', 'e', 'n', 'd', 'o', 'r']);
        assert(bin@ =~= seq!['b', 'i', 'n']);
        string_of(r.as_slice())
    }

    /// Validate platform is supported: Linux, macOS or Windows on `x86_64`
    /// or `aarch64`.
    pub fn validate(&self) -> (r: Result<(), PlatformError>)
        ensures
            r is Ok <==> supported(self.os, self.arch),
            r matches Err(PlatformError::UnsupportedPlatform { os, arch }) ==> os@ == os_debug_name(
                self.os,
            ) && arch@ == arch_debug_name(self.arch),
            r is Err ==> r->Err_0 is UnsupportedPlatform,
    {
        match (&self.os, &self.arch) {
            (Os::Linux, Arch::X86_64) | (Os::Linux, Arch::Aarch64) | (Os::MacOs, Arch::X86_64) | (
                Os::MacOs,
                Arch::Aarch64,
            ) | (Os::Windows, Arch::X86_64) | (Os::Windows, Arch::Aarch64) => Ok(()),
            (os, arch) => Err(
                PlatformError::UnsupportedPlatform { os: os.debug_name(), arch: arch.debug_name() },
            ),
        }
    }

    /// Check if `io_uring` is available (Linux 5.1+).
    pub fn supports_io_uring(&self) -> (r: bool)
        ensures
            r == (self.os == Os::Linux && match self.kernel_version {
                Some(v) => v.major >= 5 && (v.major > 5 || v.minor >= 1),
                None => false,
            }),
    {
        if !self.is_linux() {
            return false;
        }
        match &self.kernel_version {
            Some(v) => v.major >= 5 && (v.major > 5 || v.minor >= 1),
            None => false,
        }
    }

    /// Check if IOCP is available (Windows).
    pub fn supports_iocp(&self) -> (r: bool)
        ensures
            r == (self.os == Os::Windows),
    {
        self.is_windows()
    }

    /// Check if kqueue is available (macOS/BSD).
    pub fn supports_kqueue(&self) -> (r: bool)
        ensures
            r == (self.os == Os::MacOs),
    {
        self.is_macos()
    }

    /// Optimal I/O concurrency for this platform on `cpus` CPUs.
    pub fn optimal_io_concurrency(&self, cpus: usize) -> (r: usize)
        requires
            cpus * 16 <= usize::MAX,
        ensures
            r == cpus * (match self.io_backend {
                IoBackend::IoUring => 16int,
                IoBackend::Iocp | IoBackend::Kqueue => 8,
                IoBackend::Epoll | IoBackend::Poll => 4,
            }),
    {
        match self.io_backend {
            IoBackend::IoUring => cpus * 16,
            IoBackend::Iocp => cpus * 8,
            IoBackend::Kqueue => cpus * 8,
            IoBackend::Epoll | IoBackend::Poll => cpus * 4,
        }
    }

    /// Path separator of an OS.
    pub fn get_path_separator(os: &Os) -> (r: char)
        ensures
            r == separator_of(*os),
    {
        match os {
            Os::Windows => '\\',
            _ => '/',
        }
    }

    /// Executable extension of an OS.
    pub fn get_exe_extension(os: &Os) -> (r: &'static str)
        ensures
            r@ == exe_extension_of(*os),
    {
        match os {
            Os::Windows => ".exe",
            _ => "",
        }
    }

    /// Whether the usual file system of an OS is case sensitive.
    pub fn detect_case_sensitivity(os: &Os) -> (r: bool)
        ensures
            r == case_sensitive_of(*os),
    {
        match os {
            Os::Linux => true,
            Os::MacOs | Os::Windows => false,
            Os::Unknown => true,
        }
    }
}

} // verus!
