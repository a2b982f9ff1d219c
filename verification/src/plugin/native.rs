//! Native plugin libraries.
use vstd::prelude::*;
use crate::platform::Os;
use crate::error::{dec, push_number, push_signed, signed_dec};
use crate::path::{join_chars, joined};
use crate::plugin::api::{opt_view, EventResult};
use crate::plugin::error::PluginError;
use crate::text::{chars_of, push_str, string_of};

verus! {

/// File extension of dynamic libraries on an OS (without the dot).
pub open spec fn library_extension_of(os: Os) -> Seq<char> {
    match os {
        Os::Linux => "so"@,
        Os::MacOs => "dylib"@,
        Os::Windows => "dll"@,
        Os::Unknown => "so"@,
    }
}

/// Get the dynamic library extension for an OS.
pub fn library_extension(os: &Os) -> (r: &'static str)
    ensures
        r@ == library_extension_of(*os),
{
    match os {
        Os::Linux => "so",
        Os::MacOs => "dylib",
        Os::Windows => "dll",
        Os::Unknown => "so",
    }
}

/// Version of the binary interface between the host and native plugins.
pub const PLUGIN_ABI_VERSION: u32 = 1;

/// Check the interface version a library reports: a library that reports
/// none is taken as compatible; one that reports another version is
/// refused with an API version mismatch.
pub fn check_abi_version(found: Option<u32>) -> (r: Result<(), PluginError>)
    ensures
        match found {
            Some(v) => if v == PLUGIN_ABI_VERSION {
                r is Ok
            } else {
                r matches Err(PluginError::ApiVersionMismatch { required: q, found: f }) && q@ == dec(
                    PLUGIN_ABI_VERSION as nat,
                ) && f@ == dec(v as nat)
            },
            None => r is Ok,
        },
{
    match found {
        Some(v) => {
            if v == PLUGIN_ABI_VERSION {
                Ok(())
            } else {
                let mut q: Vec<char> = Vec::new();
                push_number(&mut q, PLUGIN_ABI_VERSION as u64);
                let mut f: Vec<char> = Vec::new();
                push_number(&mut f, v as u64);
                Err(PluginError::ApiVersionMismatch { required: string_of(q.as_slice()), found: string_of(f.as_slice()) })
            }
        },
        None => Ok(()),
    }
}

/// The result of a native event handler from the code it returned: a
/// negative code is an error naming the code, `1` stops processing, any
/// other code lets processing continue.
pub fn event_result_from_code(code: i32) -> (r: EventResult)
    ensures
        code < 0 ==> !r.continue_processing && opt_view(r.error) == Some(
            "plugin returned error code: "@ + signed_dec(code as int),
        ),
        code == 1 ==> !r.continue_processing && r.error is None,
        code >= 0 && code != 1 ==> r.continue_processing && r.error is None,
        r.messages@.len() == 0 && r.modified_data@.len() == 0 && r.warnings@.len() == 0,
{
    if code < 0 {
        let mut m: Vec<char> = Vec::new();
        push_str(&mut m, "plugin returned error code: ");
        push_signed(&mut m, code);
        let text = string_of(m.as_slice());
        EventResult::error(text.as_str())
    } else if code == 1 {
        EventResult::stop()
    } else {
        EventResult::ok()
    }
}

/// The library files tried, in order, in a plugin directory:
/// `plugin.<ext>`, `libplugin.<ext>` and `lib.<ext>`.
pub open spec fn library_candidates_of(dir: Seq<char>, os: Os) -> Seq<Seq<char>> {
    let ext = seq!['.'] + library_extension_of(os);
    seq![joined(dir, "plugin"@ + ext, os), joined(dir, "libplugin"@ + ext, os), joined(dir, "lib"@ + ext, os)]
}

fn candidate(dir: &[char], stem: &str, os: &Os) -> (r: String)
    ensures
        r@ == joined(dir@, stem@ + seq!['.'] + library_extension_of(*os), *os),
{
    let mut name: Vec<char> = Vec::new();
    push_str(&mut name, stem);
    name.push('.');
    push_str(&mut name, library_extension(os));
    assert(name@ =~= stem@ + seq!['.'] + library_extension_of(*os));
    let p = join_chars(dir, name.as_slice(), os);
    string_of(p.as_slice())
}

/// The library files to try in a plugin directory.
pub fn library_candidates(dir: &str, os: &Os) -> (r: Vec<String>)
    ensures
        r@.map_values(|s: String| s@) == library_candidates_of(dir@, *os),
{
    let d = chars_of(dir);
    let a = candidate(d.as_slice(), "plugin", os);
    let b = candidate(d.as_slice(), "libplugin", os);
    let c = candidate(d.as_slice(), "lib", os);
    let ghost ext = seq!['.'] + library_extension_of(*os);
    assert("plugin"@ + seq!['.'] + library_extension_of(*os) =~= "plugin"@ + ext);
    assert("libplugin"@ + seq!['.'] + library_extension_of(*os) =~= "libplugin"@ + ext);
    assert("lib"@ + seq!['.'] + library_extension_of(*os) =~= "lib"@ + ext);
    let r = vec![a, b, c];
    assert(r@.map_values(|s: String| s@) =~= library_candidates_of(dir@, *os));
    r
}

} // verus!
