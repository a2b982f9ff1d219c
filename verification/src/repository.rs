//! Package repositories: their errors and configuration types, Packagist
//! response types, package stability and VCS provider detection.
pub mod error;
pub mod types;
pub mod packagist;
pub mod providers;

use vstd::prelude::*;

verus! {

/// The version of this library, as its package manifest gives it.
pub const VERSION: &'static str = "0.1.0";

} // verus!
