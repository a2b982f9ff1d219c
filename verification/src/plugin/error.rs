//! Plugin system errors.
use vstd::prelude::*;
use crate::repository::error::dec;
use crate::text::{owned, push_all, push_str, radix_chars, string_of};

verus! {

/// Plugin system errors. Errors of the I/O layer, the JSON parser and the
/// SemVer parser are carried as their messages.
#[derive(Debug)]
pub enum PluginError {
    /// Plugin not found.
    NotFound(String),
    /// Plugin already loaded.
    AlreadyLoaded(String),
    /// Plugin not loaded.
    NotLoaded(String),
    /// Plugin disabled.
    Disabled(String),
    /// Failed to load native plugin library.
    LibraryLoad { path: String, message: String },
    /// Symbol not found in plugin library.
    SymbolNotFound { plugin: String, symbol: String },
    /// Invalid plugin metadata.
    InvalidMetadata(String),
    /// Plugin API version mismatch.
    ApiVersionMismatch { required: String, found: String },
    /// Plugin initialization failed.
    InitializationFailed(String),
    /// Plugin execution failed.
    ExecutionFailed(String),
    /// Plugin timeout.
    Timeout { plugin: String, seconds: u64 },
    /// Sandbox violation.
    SandboxViolation { plugin: String, violation: String },
    /// IPC communication error.
    Ipc { plugin: String, message: String },
    /// PHP runtime error.
    PhpRuntime { plugin: String, message: String },
    /// Hot reload is disabled.
    HotReloadDisabled,
    /// Invalid operation for plugin type.
    InvalidOperation(String),
    /// Discovery error.
    Discovery(String),
    /// Hook execution error.
    HookExecution(String),
    /// Configuration error.
    Configuration(String),
    /// IO error.
    Io(String),
    /// JSON parsing error.
    Json(String),
    /// Semver parsing error.
    Version(String),
    /// Memory limit exceeded.
    MemoryLimitExceeded { plugin: String, limit_mb: usize },
    /// Network access violation.
    NetworkViolation { plugin: String, target: String },
    /// Filesystem access violation.
    FilesystemViolation { plugin: String, path: String },
    /// Plugin crashed.
    Crashed { plugin: String, message: String },
    /// Channel send error.
    ChannelSend(String),
    /// Channel receive error.
    ChannelReceive(String),
}

/// The human-readable message of a plugin error.
pub open spec fn plugin_error_message(e: PluginError) -> Seq<char> {
    match e {
        PluginError::NotFound(m) => "plugin not found: "@ + m@,
        PluginError::AlreadyLoaded(m) => "plugin already loaded: "@ + m@,
        PluginError::NotLoaded(m) => "plugin not loaded: "@ + m@,
        PluginError::Disabled(m) => "plugin is disabled: "@ + m@,
        PluginError::LibraryLoad { path, message } => "failed to load plugin library at "@ + path@ + ": "@ + message@,
        PluginError::SymbolNotFound { plugin, symbol } => "symbol '"@ + symbol@ + "' not found in plugin "@ + plugin@,
        PluginError::InvalidMetadata(m) => "invalid plugin metadata: "@ + m@,
        PluginError::ApiVersionMismatch { required, found } => "plugin API version mismatch: required "@ + required@ + ", found "@ + found@,
        PluginError::InitializationFailed(m) => "plugin initialization failed: "@ + m@,
        PluginError::ExecutionFailed(m) => "plugin execution failed: "@ + m@,
        PluginError::Timeout { plugin, seconds } => "plugin timed out after "@ + dec(seconds as nat) + "s: "@ + plugin@,
        PluginError::SandboxViolation { plugin, violation } => "sandbox violation in plugin "@ + plugin@ + ": "@ + violation@,
        PluginError::Ipc { plugin, message } => "IPC error with plugin "@ + plugin@ + ": "@ + message@,
        PluginError::PhpRuntime { plugin, message } => "PHP error in plugin "@ + plugin@ + ": "@ + message@,
        PluginError::HotReloadDisabled => "hot reload is not enabled"@,
        PluginError::InvalidOperation(m) => "invalid operation: "@ + m@,
        PluginError::Discovery(m) => "plugin discovery failed: "@ + m@,
        PluginError::HookExecution(m) => "hook execution failed: "@ + m@,
        PluginError::Configuration(m) => "plugin configuration error: "@ + m@,
        PluginError::Io(m) => "IO error: "@ + m@,
        PluginError::Json(m) => "JSON error: "@ + m@,
        PluginError::Version(m) => "version parsing error: "@ + m@,
        PluginError::MemoryLimitExceeded { plugin, limit_mb } => "plugin "@ + plugin@ + " exceeded memory limit of "@ + dec(limit_mb as nat) + "MB"@,
        PluginError::NetworkViolation { plugin, target } => "plugin "@ + plugin@ + " attempted unauthorized network access to "@ + target@,
        PluginError::FilesystemViolation { plugin, path } => "plugin "@ + plugin@ + " attempted unauthorized filesystem access to "@ + path@,
        PluginError::Crashed { plugin, message } => "plugin "@ + plugin@ + " crashed: "@ + message@,
        PluginError::ChannelSend(m) => "event bus send error: "@ + m@,
        PluginError::ChannelReceive(m) => "event bus receive error: "@ + m@,
    }
}

/// Whether an error is a sandbox violation of some kind.
pub open spec fn sandbox_violation_kind(e: PluginError) -> bool {
    e is SandboxViolation || e is NetworkViolation || e is FilesystemViolation || e is MemoryLimitExceeded
}

/// Whether an error may go away when the operation is retried.
pub open spec fn recoverable_kind(e: PluginError) -> bool {
    e is Timeout || e is Ipc || e is ExecutionFailed || e is HookExecution
}

fn push_number(out: &mut Vec<char>, n: u64)
    ensures
        final(out)@ == old(out)@ + dec(n as nat),
{
    let d = radix_chars(n as u128, 10);
    push_all(out, d.as_slice());
}

impl PluginError {
    /// Create a library load error.
    pub fn library_load(path: &str, message: &str) -> (r: Self)
        ensures
            r matches PluginError::LibraryLoad { path: p, message: m } && p@ == path@ && m@ == message@,
    {
        PluginError::LibraryLoad { path: owned(path), message: owned(message) }
    }

    /// Create a symbol not found error.
    pub fn symbol_not_found(plugin: &str, symbol: &str) -> (r: Self)
        ensures
            r matches PluginError::SymbolNotFound { plugin: p, symbol: s } && p@ == plugin@ && s@ == symbol@,
    {
        PluginError::SymbolNotFound { plugin: owned(plugin), symbol: owned(symbol) }
    }

    /// Create a timeout error.
    pub fn timeout(plugin: &str, seconds: u64) -> (r: Self)
        ensures
            r matches PluginError::Timeout { plugin: p, seconds: s } && p@ == plugin@ && s == seconds,
    {
        PluginError::Timeout { plugin: owned(plugin), seconds }
    }

    /// Create a sandbox violation error.
    pub fn sandbox_violation(plugin: &str, violation: &str) -> (r: Self)
        ensures
            r matches PluginError::SandboxViolation { plugin: p, violation: v } && p@ == plugin@ && v@ == violation@,
    {
        PluginError::SandboxViolation { plugin: owned(plugin), violation: owned(violation) }
    }

    /// Create an IPC error.
    pub fn ipc(plugin: &str, message: &str) -> (r: Self)
        ensures
            r matches PluginError::Ipc { plugin: p, message: m } && p@ == plugin@ && m@ == message@,
    {
        PluginError::Ipc { plugin: owned(plugin), message: owned(message) }
    }

    /// Create a PHP runtime error.
    pub fn php_runtime(plugin: &str, message: &str) -> (r: Self)
        ensures
            r matches PluginError::PhpRuntime { plugin: p, message: m } && p@ == plugin@ && m@ == message@,
    {
        PluginError::PhpRuntime { plugin: owned(plugin), message: owned(message) }
    }

    /// Create a memory limit error.
    pub fn memory_limit(plugin: &str, limit_mb: usize) -> (r: Self)
        ensures
            r matches PluginError::MemoryLimitExceeded { plugin: p, limit_mb: l } && p@ == plugin@ && l == limit_mb,
    {
        PluginError::MemoryLimitExceeded { plugin: owned(plugin), limit_mb }
    }

    /// Create a network violation error.
    pub fn network_violation(plugin: &str, target: &str) -> (r: Self)
        ensures
            r matches PluginError::NetworkViolation { plugin: p, target: t } && p@ == plugin@ && t@ == target@,
    {
        PluginError::NetworkViolation { plugin: owned(plugin), target: owned(target) }
    }

    /// Create a filesystem violation error.
    pub fn filesystem_violation(plugin: &str, path: &str) -> (r: Self)
        ensures
            r matches PluginError::FilesystemViolation { plugin: p, path: q } && p@ == plugin@ && q@ == path@,
    {
        PluginError::FilesystemViolation { plugin: owned(plugin), path: owned(path) }
    }

    /// Create a crash error.
    pub fn crashed(plugin: &str, message: &str) -> (r: Self)
        ensures
            r matches PluginError::Crashed { plugin: p, message: m } && p@ == plugin@ && m@ == message@,
    {
        PluginError::Crashed { plugin: owned(plugin), message: owned(message) }
    }

    /// Check if this is a timeout error.
    pub fn is_timeout(&self) -> (r: bool)
        ensures
            r == self is Timeout,
    {
        matches!(self, PluginError::Timeout { .. })
    }

    /// Check if this is a sandbox violation.
    pub fn is_sandbox_violation(&self) -> (r: bool)
        ensures
            r == sandbox_violation_kind(*self),
    {
        matches!(self, PluginError::SandboxViolation { .. } | PluginError::NetworkViolation { .. }
            | PluginError::FilesystemViolation { .. } | PluginError::MemoryLimitExceeded { .. })
    }

    /// Check if this is a recoverable error.
    pub fn is_recoverable(&self) -> (r: bool)
        ensures
            r == recoverable_kind(*self),
    {
        matches!(self, PluginError::Timeout { .. } | PluginError::Ipc { .. }
            | PluginError::ExecutionFailed(_) | PluginError::HookExecution(_))
    }

    /// The human-readable message of the error.
    pub fn to_string(&self) -> (r: String)
        ensures
            r@ == plugin_error_message(*self),
    {
        let mut out: Vec<char> = Vec::new();
        match self {
            PluginError::NotFound(m) => {
                push_str(&mut out, "plugin not found: ");
                push_str(&mut out, m.as_str());
            },
            PluginError::AlreadyLoaded(m) => {
                push_str(&mut out, "plugin already loaded: ");
                push_str(&mut out, m.as_str());
            },
            PluginError::NotLoaded(m) => {
                push_str(&mut out, "plugin not loaded: ");
                push_str(&mut out, m.as_str());
            },
            PluginError::Disabled(m) => {
                push_str(&mut out, "plugin is disabled: ");
                push_str(&mut out, m.as_str());
            },
            PluginError::LibraryLoad { path, message } => {
                push_str(&mut out, "failed to load plugin library at ");
                push_str(&mut out, path.as_str());
                push_str(&mut out, ": ");
                push_str(&mut out, message.as_str());
            },
            PluginError::SymbolNotFound { plugin, symbol } => {
                push_str(&mut out, "symbol '");
                push_str(&mut out, symbol.as_str());
                push_str(&mut out, "' not found in plugin ");
                push_str(&mut out, plugin.as_str());
            },
            PluginError::InvalidMetadata(m) => {
                push_str(&mut out, "invalid plugin metadata: ");
                push_str(&mut out, m.as_str());
            },
            PluginError::ApiVersionMismatch { required, found } => {
                push_str(&mut out, "plugin API version mismatch: required ");
                push_str(&mut out, required.as_str());
                push_str(&mut out, ", found ");
                push_str(&mut out, found.as_str());
            },
            PluginError::InitializationFailed(m) => {
                push_str(&mut out, "plugin initialization failed: ");
                push_str(&mut out, m.as_str());
            },
            PluginError::ExecutionFailed(m) => {
                push_str(&mut out, "plugin execution failed: ");
                push_str(&mut out, m.as_str());
            },
            PluginError::Timeout { plugin, seconds } => {
                push_str(&mut out, "plugin timed out after ");
                push_number(&mut out, *seconds as u64);
                push_str(&mut out, "s: ");
                push_str(&mut out, plugin.as_str());
            },
            PluginError::SandboxViolation { plugin, violation } => {
                push_str(&mut out, "sandbox violation in plugin ");
                push_str(&mut out, plugin.as_str());
                push_str(&mut out, ": ");
                push_str(&mut out, violation.as_str());
            },
            PluginError::Ipc { plugin, message } => {
                push_str(&mut out, "IPC error with plugin ");
                push_str(&mut out, plugin.as_str());
                push_str(&mut out, ": ");
                push_str(&mut out, message.as_str());
            },
            PluginError::PhpRuntime { plugin, message } => {
                push_str(&mut out, "PHP error in plugin ");
                push_str(&mut out, plugin.as_str());
                push_str(&mut out, ": ");
                push_str(&mut out, message.as_str());
            },
            PluginError::HotReloadDisabled => {
                push_str(&mut out, "hot reload is not enabled");
            },
            PluginError::InvalidOperation(m) => {
                push_str(&mut out, "invalid operation: ");
                push_str(&mut out, m.as_str());
            },
            PluginError::Discovery(m) => {
                push_str(&mut out, "plugin discovery failed: ");
                push_str(&mut out, m.as_str());
            },
            PluginError::HookExecution(m) => {
                push_str(&mut out, "hook execution failed: ");
                push_str(&mut out, m.as_str());
            },
            PluginError::Configuration(m) => {
                push_str(&mut out, "plugin configuration error: ");
                push_str(&mut out, m.as_str());
            },
            PluginError::Io(m) => {
                push_str(&mut out, "IO error: ");
                push_str(&mut out, m.as_str());
            },
            PluginError::Json(m) => {
                push_str(&mut out, "JSON error: ");
                push_str(&mut out, m.as_str());
            },
            PluginError::Version(m) => {
                push_str(&mut out, "version parsing error: ");
                push_str(&mut out, m.as_str());
            },
            PluginError::MemoryLimitExceeded { plugin, limit_mb } => {
                push_str(&mut out, "plugin ");
                push_str(&mut out, plugin.as_str());
                push_str(&mut out, " exceeded memory limit of ");
                push_number(&mut out, *limit_mb as u64);
                push_str(&mut out, "MB");
            },
            PluginError::NetworkViolation { plugin, target } => {
                push_str(&mut out, "plugin ");
                push_str(&mut out, plugin.as_str());
                push_str(&mut out, " attempted unauthorized network access to ");
                push_str(&mut out, target.as_str());
            },
            PluginError::FilesystemViolation { plugin, path } => {
                push_str(&mut out, "plugin ");
                push_str(&mut out, plugin.as_str());
                push_str(&mut out, " attempted unauthorized filesystem access to ");
                push_str(&mut out, path.as_str());
            },
            PluginError::Crashed { plugin, message } => {
                push_str(&mut out, "plugin ");
                push_str(&mut out, plugin.as_str());
                push_str(&mut out, " crashed: ");
                push_str(&mut out, message.as_str());
            },
            PluginError::ChannelSend(m) => {
                push_str(&mut out, "event bus send error: ");
                push_str(&mut out, m.as_str());
            },
            PluginError::ChannelReceive(m) => {
                push_str(&mut out, "event bus receive error: ");
                push_str(&mut out, m.as_str());
            },
        }
        assert(out@ =~= plugin_error_message(*self));
        string_of(out.as_slice())
    }
}

/// A sandbox violation is never worth retrying, and a timeout always is.
pub proof fn lemma_violations_not_recoverable(e: PluginError)
    ensures
        sandbox_violation_kind(e) ==> !recoverable_kind(e),
        e is Timeout ==> recoverable_kind(e),
{
}

} // verus!
