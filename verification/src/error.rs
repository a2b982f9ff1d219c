//! Platform operation errors.
use vstd::prelude::*;
use crate::text::{owned, push_all, push_str, radix_chars, radix_digits, string_of};

verus! {

/// Platform operation errors. Paths are carried as strings.
#[derive(Debug)]
pub enum PlatformError {
    /// Unsupported platform.
    UnsupportedPlatform { os: String, arch: String },
    /// I/O error with path context.
    Io { path: String, message: String },
    /// Permission denied.
    PermissionDenied { path: String },
    /// File not found.
    NotFound { path: String },
    /// File already exists.
    AlreadyExists { path: String },
    /// Invalid path.
    InvalidPath { path: String, reason: String },
    /// Atomic operation failed.
    AtomicFailed { operation: String, reason: String },
    /// Lock acquisition timeout.
    LockTimeout { path: String, timeout_secs: u64 },
    /// Signal handling error.
    Signal(String),
    /// Process error.
    Process(String),
    /// Process spawn failed.
    SpawnFailed { command: String, reason: String },
    /// Process exited with non-zero status.
    ProcessFailed { code: i32, stderr: String },
    /// Shell not found.
    ShellNotFound { shell: String },
    /// Shell command error.
    ShellCommand(String),
    /// TLS error.
    Tls(String),
    /// Certificate error.
    Certificate(String),
    /// SIMD operation error.
    Simd(String),
    /// Feature not available.
    FeatureUnavailable { feature: String },
    /// Temporary file error.
    TempFile(String),
    /// Environment variable error.
    EnvVar(String),
    /// Symlink error.
    Symlink { path: String, reason: String },
    /// Platform-specific error.
    PlatformSpecific { platform: String, message: String },
    /// Internal error (should not happen).
    Internal(String),
}

impl PlatformError {
    /// Create an I/O error with path context; `message` is the text of the
    /// underlying I/O error.
    pub fn io(path: &str, message: &str) -> (r: Self)
        ensures
            r matches PlatformError::Io { path: p, message: m } && p@ == path@ && m@ == message@,
    {
        PlatformError::Io { path: owned(path), message: owned(message) }
    }

    /// Create a permission denied error.
    pub fn permission_denied(path: &str) -> (r: Self)
        ensures
            r matches PlatformError::PermissionDenied { path: p } && p@ == path@,
    {
        PlatformError::PermissionDenied { path: owned(path) }
    }

    /// Create a not found error.
    pub fn not_found(path: &str) -> (r: Self)
        ensures
            r matches PlatformError::NotFound { path: p } && p@ == path@,
    {
        PlatformError::NotFound { path: owned(path) }
    }

    /// Create an already exists error.
    pub fn already_exists(path: &str) -> (r: Self)
        ensures
            r matches PlatformError::AlreadyExists { path: p } && p@ == path@,
    {
        PlatformError::AlreadyExists { path: owned(path) }
    }

    /// Create an invalid path error.
    pub fn invalid_path(path: &str, reason: &str) -> (r: Self)
        ensures
            r matches PlatformError::InvalidPath { path: p, reason: e } && p@ == path@ && e@ == reason@,
    {
        PlatformError::InvalidPath { path: owned(path), reason: owned(reason) }
    }

    /// Create a spawn failed error.
    pub fn spawn_failed(command: &str, reason: &str) -> (r: Self)
        ensures
            r matches PlatformError::SpawnFailed { command: c, reason: e } && c@ == command@ && e@ == reason@,
    {
        PlatformError::SpawnFailed { command: owned(command), reason: owned(reason) }
    }

    /// Create a feature unavailable error.
    pub fn feature_unavailable(feature: &str) -> (r: Self)
        ensures
            r matches PlatformError::FeatureUnavailable { feature: f } && f@ == feature@,
    {
        PlatformError::FeatureUnavailable { feature: owned(feature) }
    }

    /// Create a platform-specific error.
    pub fn platform_specific(platform: &str, message: &str) -> (r: Self)
        ensures
            r matches PlatformError::PlatformSpecific { platform: p, message: m } && p@ == platform@ && m@ == message@,
    {
        PlatformError::PlatformSpecific { platform: owned(platform), message: owned(message) }
    }

    /// Check if this is a permission error.
    pub fn is_permission_error(&self) -> (r: bool)
        ensures
            r == (*self is PermissionDenied),
    {
        match self {
            PlatformError::PermissionDenied { .. } => true,
            _ => false,
        }
    }

    /// Check if this is a not found error.
    pub fn is_not_found(&self) -> (r: bool)
        ensures
            r == (*self is NotFound),
    {
        match self {
            PlatformError::NotFound { .. } => true,
            _ => false,
        }
    }

    /// Check if this is a transient error (retryable): a lock timeout, an I/O
    /// error or a temporary file error.
    pub fn is_transient(&self) -> (r: bool)
        ensures
            r == (*self is LockTimeout || *self is Io || *self is TempFile),
    {
        match self {
            PlatformError::LockTimeout { .. } | PlatformError::Io { .. } | PlatformError::TempFile(_) => true,
            _ => false,
        }
    }
}

/// No error is both a permission error and a not-found error, and neither of
/// them is transient.
pub proof fn lemma_error_classes_disjoint(e: PlatformError)
    ensures
        !((e is PermissionDenied) && (e is NotFound)),
        (e is PermissionDenied || e is NotFound) ==> !(e is LockTimeout || e is Io || e is TempFile),
{
}

/// Decimal digits of a number.
pub open spec fn dec(n: nat) -> Seq<char> {
    radix_digits(n, 10)
}

/// Decimal digits of a signed number, with a leading `-` when negative.
pub open spec fn signed_dec(i: int) -> Seq<char> {
    if i < 0 {
        seq!['-'] + radix_digits((-i) as nat, 10)
    } else {
        radix_digits(i as nat, 10)
    }
}

/// The human-readable message of a platform error.
pub open spec fn platform_error_message(e: PlatformError) -> Seq<char> {
    match e {
        PlatformError::UnsupportedPlatform { os, arch } => "unsupported platform: "@ + os@ + "/"@ + arch@,
        PlatformError::Io { path, message } => "I/O error at '"@ + path@ + "': "@ + message@,
        PlatformError::PermissionDenied { path } => "permission denied: "@ + path@,
        PlatformError::NotFound { path } => "file not found: "@ + path@,
        PlatformError::AlreadyExists { path } => "file already exists: "@ + path@,
        PlatformError::InvalidPath { path, reason } => "invalid path: "@ + path@ + " - "@ + reason@,
        PlatformError::AtomicFailed { operation, reason } => "atomic operation failed: "@ + operation@ + " - "@ + reason@,
        PlatformError::LockTimeout { path, timeout_secs } => "lock timeout on '"@ + path@ + "' after "@ + dec(timeout_secs as nat) + "s"@,
        PlatformError::Signal(m) => "signal error: "@ + m@,
        PlatformError::Process(m) => "process error: "@ + m@,
        PlatformError::SpawnFailed { command, reason } => "failed to spawn process '"@ + command@ + "': "@ + reason@,
        PlatformError::ProcessFailed { code, stderr } => "process exited with code "@ + signed_dec(code as int) + ": "@ + stderr@,
        PlatformError::ShellNotFound { shell } => "shell not found: "@ + shell@,
        PlatformError::ShellCommand(m) => "shell command failed: "@ + m@,
        PlatformError::Tls(m) => "TLS error: "@ + m@,
        PlatformError::Certificate(m) => "certificate error: "@ + m@,
        PlatformError::Simd(m) => "SIMD error: "@ + m@,
        PlatformError::FeatureUnavailable { feature } => "feature not available on this platform: "@ + feature@,
        PlatformError::TempFile(m) => "temp file error: "@ + m@,
        PlatformError::EnvVar(m) => "environment variable error: "@ + m@,
        PlatformError::Symlink { path, reason } => "symlink error at '"@ + path@ + "': "@ + reason@,
        PlatformError::PlatformSpecific { platform, message } => platform@ + " error: "@ + message@,
        PlatformError::Internal(m) => "internal error: "@ + m@,
    }
}

pub(crate) fn push_number(out: &mut Vec<char>, n: u64)
    ensures
        final(out)@ == old(out)@ + dec(n as nat),
{
    let d = radix_chars(n as u128, 10);
    push_all(out, d.as_slice());
}

pub(crate) fn push_signed(out: &mut Vec<char>, i: i32)
    ensures
        final(out)@ == old(out)@ + signed_dec(i as int),
{
    if i < 0 {
        out.push('-');
        let magnitude: u128 = (0i64 - (i as i64)) as u128;
        let d = radix_chars(magnitude, 10);
        push_all(out, d.as_slice());
        assert(out@ =~= old(out)@ + signed_dec(i as int));
    } else {
        let d = radix_chars(i as u128, 10);
        push_all(out, d.as_slice());
    }
}

/// Kinds of I/O failures that map to their own platform errors.
#[derive(Debug, Clone, Copy, PartialEq, Eq, Structural)]
pub enum IoErrorKind {
    /// The entity was not found.
    NotFound,
    /// Permission was denied.
    PermissionDenied,
    /// The entity already exists.
    AlreadyExists,
    /// Any other failure.
    Other,
}

impl PlatformError {
    /// The human-readable message of the error.
    pub fn to_string(&self) -> (r: String)
        ensures
            r@ == platform_error_message(*self),
    {
        let mut out: Vec<char> = Vec::new();
        match self {
            PlatformError::UnsupportedPlatform { os, arch } => {
                push_str(&mut out, "unsupported platform: ");
                push_str(&mut out, os.as_str());
                push_str(&mut out, "/");
                push_str(&mut out, arch.as_str());
            },
            PlatformError::Io { path, message } => {
                push_str(&mut out, "I/O error at '");
                push_str(&mut out, path.as_str());
                push_str(&mut out, "': ");
                push_str(&mut out, message.as_str());
            },
            PlatformError::PermissionDenied { path } => {
                push_str(&mut out, "permission denied: ");
                push_str(&mut out, path.as_str());
            },
            PlatformError::NotFound { path } => {
                push_str(&mut out, "file not found: ");
                push_str(&mut out, path.as_str());
            },
            PlatformError::AlreadyExists { path } => {
                push_str(&mut out, "file already exists: ");
                push_str(&mut out, path.as_str());
            },
            PlatformError::InvalidPath { path, reason } => {
                push_str(&mut out, "invalid path: ");
                push_str(&mut out, path.as_str());
                push_str(&mut out, " - ");
                push_str(&mut out, reason.as_str());
            },
            PlatformError::AtomicFailed { operation, reason } => {
                push_str(&mut out, "atomic operation failed: ");
                push_str(&mut out, operation.as_str());
                push_str(&mut out, " - ");
                push_str(&mut out, reason.as_str());
            },
            PlatformError::LockTimeout { path, timeout_secs } => {
                push_str(&mut out, "lock timeout on '");
                push_str(&mut out, path.as_str());
                push_str(&mut out, "' after ");
                push_number(&mut out, *timeout_secs as u64);
                push_str(&mut out, "s");
            },
            PlatformError::Signal(m) => {
                push_str(&mut out, "signal error: ");
                push_str(&mut out, m.as_str());
            },
            PlatformError::Process(m) => {
                push_str(&mut out, "process error: ");
                push_str(&mut out, m.as_str());
            },
            PlatformError::SpawnFailed { command, reason } => {
                push_str(&mut out, "failed to spawn process '");
                push_str(&mut out, command.as_str());
                push_str(&mut out, "': ");
                push_str(&mut out, reason.as_str());
            },
            PlatformError::ProcessFailed { code, stderr } => {
                push_str(&mut out, "process exited with code ");
                push_signed(&mut out, *code);
                push_str(&mut out, ": ");
                push_str(&mut out, stderr.as_str());
            },
            PlatformError::ShellNotFound { shell } => {
                push_str(&mut out, "shell not found: ");
                push_str(&mut out, shell.as_str());
            },
            PlatformError::ShellCommand(m) => {
                push_str(&mut out, "shell command failed: ");
                push_str(&mut out, m.as_str());
            },
            PlatformError::Tls(m) => {
                push_str(&mut out, "TLS error: ");
                push_str(&mut out, m.as_str());
            },
            PlatformError::Certificate(m) => {
                push_str(&mut out, "certificate error: ");
                push_str(&mut out, m.as_str());
            },
            PlatformError::Simd(m) => {
                push_str(&mut out, "SIMD error: ");
                push_str(&mut out, m.as_str());
            },
            PlatformError::FeatureUnavailable { feature } => {
                push_str(&mut out, "feature not available on this platform: ");
                push_str(&mut out, feature.as_str());
            },
            PlatformError::TempFile(m) => {
                push_str(&mut out, "temp file error: ");
                push_str(&mut out, m.as_str());
            },
            PlatformError::EnvVar(m) => {
                push_str(&mut out, "environment variable error: ");
                push_str(&mut out, m.as_str());
            },
            PlatformError::Symlink { path, reason } => {
                push_str(&mut out, "symlink error at '");
                push_str(&mut out, path.as_str());
                push_str(&mut out, "': ");
                push_str(&mut out, reason.as_str());
            },
            PlatformError::PlatformSpecific { platform, message } => {
                push_str(&mut out, platform.as_str());
                push_str(&mut out, " error: ");
                push_str(&mut out, message.as_str());
            },
            PlatformError::Internal(m) => {
                push_str(&mut out, "internal error: ");
                push_str(&mut out, m.as_str());
            },
        }
        assert(out@ =~= platform_error_message(*self));
        string_of(out.as_slice())
    }

    /// The platform error for an I/O failure without path context, from
    /// its kind and its message: not-found, permission and already-exists
    /// failures get their own variants with an empty path, anything else
    /// is an I/O error carrying the message.
    pub fn from_io(kind: IoErrorKind, message: &str) -> (r: Self)
        ensures
            match r {
                PlatformError::NotFound { path } => kind == IoErrorKind::NotFound && path@.len() == 0,
                PlatformError::PermissionDenied { path } => kind == IoErrorKind::PermissionDenied && path@.len() == 0,
                PlatformError::AlreadyExists { path } => kind == IoErrorKind::AlreadyExists && path@.len() == 0,
                PlatformError::Io { path, message: m } => kind == IoErrorKind::Other && path@.len() == 0 && m@ == message@,
                _ => false,
            },
    {
        match kind {
            IoErrorKind::NotFound => PlatformError::NotFound { path: String::new() },
            IoErrorKind::PermissionDenied => PlatformError::PermissionDenied { path: String::new() },
            IoErrorKind::AlreadyExists => PlatformError::AlreadyExists { path: String::new() },
            IoErrorKind::Other => PlatformError::Io { path: String::new(), message: owned(message) },
        }
    }
}

} // verus!
