//! Repository errors and their messages.
use vstd::prelude::*;
use crate::text::{join_strings, join_with, push_all, push_str, radix_chars, radix_digits, string_of};

verus! {

/// Repository-specific errors.
#[derive(Debug)]
pub enum RepositoryError {
    /// Package not found in any repository.
    PackageNotFound { name: String, repositories: Vec<String> },
    /// Version not found for package.
    VersionNotFound { name: String, constraint: String },
    /// Network error during fetch.
    Network { url: String, message: String, status: Option<u16> },
    /// Rate limit exceeded.
    RateLimited { url: String, retry_after: Option<u64> },
    /// Authentication required.
    AuthRequired { url: String },
    /// Authentication failed.
    AuthFailed { url: String, message: String },
    /// Invalid repository configuration.
    InvalidConfig { message: String },
    /// JSON parsing error.
    ParseError { source: String, message: String },
    /// Cache error.
    Cache { message: String },
    /// Repository is unavailable.
    Unavailable { url: String, message: String },
    /// Invalid URL.
    InvalidUrl { url: String, message: String },
    /// Timeout during operation.
    Timeout { url: String, timeout_secs: u64 },
    /// VCS operation failed.
    VcsError { url: String, message: String },
    /// Path repository error.
    PathError { path: String, message: String },
}

/// Decimal digits of a number.
pub open spec fn dec(n: nat) -> Seq<char> {
    radix_digits(n, 10)
}

/// The human-readable message of an error.
pub open spec fn error_message(e: RepositoryError) -> Seq<char> {
    match e {
        RepositoryError::PackageNotFound { name, repositories } => if repositories@.len() == 0 {
            "Package '"@ + name@ + "' not found in any repository"@
        } else {
            "Package '"@ + name@ + "' not found in repositories: "@ + join_with(
                repositories@.map_values(|s: String| s@),
                ", "@,
            )
        },
        RepositoryError::VersionNotFound { name, constraint } => "No version of '"@ + name@
            + "' matching '"@ + constraint@ + "' found"@,
        RepositoryError::Network { url, message, status } => match status {
            Some(code) => "HTTP "@ + dec(code as nat) + " from "@ + url@ + ": "@ + message@,
            None => "Network error fetching "@ + url@ + ": "@ + message@,
        },
        RepositoryError::RateLimited { url, retry_after } => match retry_after {
            Some(secs) => "Rate limited by "@ + url@ + ", retry after "@ + dec(secs as nat) + "s"@,
            None => "Rate limited by "@ + url@,
        },
        RepositoryError::AuthRequired { url } => "Authentication required for "@ + url@,
        RepositoryError::AuthFailed { url, message } => "Authentication failed for "@ + url@
            + ": "@ + message@,
        RepositoryError::InvalidConfig { message } => "Invalid repository configuration: "@
            + message@,
        RepositoryError::ParseError { source, message } => "Failed to parse response from "@
            + source@ + ": "@ + message@,
        RepositoryError::Cache { message } => "Cache error: "@ + message@,
        RepositoryError::Unavailable { url, message } => "Repository "@ + url@ + " unavailable: "@
            + message@,
        RepositoryError::InvalidUrl { url, message } => "Invalid URL '"@ + url@ + "': "@
            + message@,
        RepositoryError::Timeout { url, timeout_secs } => "Request to "@ + url@
            + " timed out after "@ + dec(timeout_secs as nat) + "s"@,
        RepositoryError::VcsError { url, message } => "VCS error for "@ + url@ + ": "@ + message@,
        RepositoryError::PathError { path, message } => "Path repository error at "@ + path@
            + ": "@ + message@,
    }
}

fn push_number(out: &mut Vec<char>, n: u64)
    ensures
        final(out)@ == old(out)@ + dec(n as nat),
{
    let d = radix_chars(n as u128, 10);
    push_all(out, d.as_slice());
}

impl RepositoryError {
    /// The human-readable message of the error.
    pub fn to_string(&self) -> (r: String)
        ensures
            r@ == error_message(*self),
    {
        let mut out: Vec<char> = Vec::new();
        match self {
            RepositoryError::PackageNotFound { name, repositories } => {
                push_str(&mut out, "Package '");
                push_str(&mut out, name.as_str());
                if repositories.len() == 0 {
                    push_str(&mut out, "' not found in any repository");
                } else {
                    push_str(&mut out, "' not found in repositories: ");
                    let sep = crate::text::chars_of(", ");
                    let joined = join_strings(repositories.as_slice(), sep.as_slice());
                    push_all(&mut out, joined.as_slice());
                }
            },
            RepositoryError::VersionNotFound { name, constraint } => {
                push_str(&mut out, "No version of '");
                push_str(&mut out, name.as_str());
                push_str(&mut out, "' matching '");
                push_str(&mut out, constraint.as_str());
                push_str(&mut out, "' found");
            },
            RepositoryError::Network { url, message, status } => {
                match status {
                    Some(code) => {
                        push_str(&mut out, "HTTP ");
                        push_number(&mut out, *code as u64);
                        push_str(&mut out, " from ");
                        push_str(&mut out, url.as_str());
                        push_str(&mut out, ": ");
                        push_str(&mut out, message.as_str());
                    },
                    None => {
                        push_str(&mut out, "Network error fetching ");
                        push_str(&mut out, url.as_str());
                        push_str(&mut out, ": ");
                        push_str(&mut out, message.as_str());
                    },
                }
            },
            RepositoryError::RateLimited { url, retry_after } => {
                push_str(&mut out, "Rate limited by ");
                push_str(&mut out, url.as_str());
                match retry_after {
                    Some(secs) => {
                        push_str(&mut out, ", retry after ");
                        push_number(&mut out, *secs);
                        push_str(&mut out, "s");
                    },
                    None => {},
                }
            },
            RepositoryError::AuthRequired { url } => {
                push_str(&mut out, "Authentication required for ");
                push_str(&mut out, url.as_str());
            },
            RepositoryError::AuthFailed { url, message } => {
                push_str(&mut out, "Authentication failed for ");
                push_str(&mut out, url.as_str());
                push_str(&mut out, ": ");
                push_str(&mut out, message.as_str());
            },
            RepositoryError::InvalidConfig { message } => {
                push_str(&mut out, "Invalid repository configuration: ");
                push_str(&mut out, message.as_str());
            },
            RepositoryError::ParseError { source, message } => {
                push_str(&mut out, "Failed to parse response from ");
                push_str(&mut out, source.as_str());
                push_str(&mut out, ": ");
                push_str(&mut out, message.as_str());
            },
            RepositoryError::Cache { message } => {
                push_str(&mut out, "Cache error: ");
                push_str(&mut out, message.as_str());
            },
            RepositoryError::Unavailable { url, message } => {
                push_str(&mut out, "Repository ");
                push_str(&mut out, url.as_str());
                push_str(&mut out, " unavailable: ");
                push_str(&mut out, message.as_str());
            },
            RepositoryError::InvalidUrl { url, message } => {
                push_str(&mut out, "Invalid URL '");
                push_str(&mut out, url.as_str());
                push_str(&mut out, "': ");
                push_str(&mut out, message.as_str());
            },
            RepositoryError::Timeout { url, timeout_secs } => {
                push_str(&mut out, "Request to ");
                push_str(&mut out, url.as_str());
                push_str(&mut out, " timed out after ");
                push_number(&mut out, *timeout_secs);
                push_str(&mut out, "s");
            },
            RepositoryError::VcsError { url, message } => {
                push_str(&mut out, "VCS error for ");
                push_str(&mut out, url.as_str());
                push_str(&mut out, ": ");
                push_str(&mut out, message.as_str());
            },
            RepositoryError::PathError { path, message } => {
                push_str(&mut out, "Path repository error at ");
                push_str(&mut out, path.as_str());
                push_str(&mut out, ": ");
                push_str(&mut out, message.as_str());
            },
        }
        assert(out@ =~= error_message(*self));
        string_of(out.as_slice())
    }
}

} // verus!
