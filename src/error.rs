use vstd::prelude::*;

verus! {

/// What stops an analysis before it can report.
#[derive(Debug, Clone, Copy, PartialEq, Eq, Structural)]
pub enum DiffError {
    /// The repository address is not a URL.
    InvalidUrl,
    /// The repository address names no host.
    MissingHost,
    /// The repository address has no path to split into segments.
    MissingPath,
    /// The repository address names no owner.
    MissingOwner,
    /// The repository address names no repository.
    MissingRepository,
    /// A tag filter pattern did not compile.
    InvalidTagPattern,
    /// No manifest of the package was found.
    ManifestNotFound,
    /// The manifest stands at the root, so it has no directory.
    ManifestAtRoot,
    /// The path does not exist in the tree.
    PathNotFound,
    /// A changed file of a diff carries no path.
    MissingDeltaPath,
    /// Unpacking an archive left no entry, or more than one, in its directory.
    ExtractionLayout,
}

} // verus!
