//! Hook points at which plugins are called.
use vstd::prelude::*;

verus! {

/// Plugin hook points.
#[derive(Debug, Clone, Copy, PartialEq, Eq, Structural, Hash)]
pub enum Hook {
    /// Before `install` runs.
    PreInstallCmd,
    /// After `install` ran.
    PostInstallCmd,
    /// Before `update` runs.
    PreUpdateCmd,
    /// After `update` ran.
    PostUpdateCmd,
    /// Before a package is installed.
    PrePackageInstall,
    /// After a package was installed.
    PostPackageInstall,
    /// Before a package is removed.
    PrePackageUninstall,
    /// After a package was removed.
    PostPackageUninstall,
    /// Before dependencies are resolved.
    PreDependenciesSolving,
    /// After dependencies were resolved.
    PostDependenciesSolving,
    /// Before the autoloader is written.
    PreAutoloadDump,
    /// After the autoloader was written.
    PostAutoloadDump,
    /// Before a file is downloaded.
    PreFileDownload,
}

} // verus!
