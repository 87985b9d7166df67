//! Reconciles the source a package registry published for a release with the
//! upstream version-control history that the release claims to come from.
//!
//! The library holds the decisions: which tag or commit is a release, which
//! manifest governs a package, how a tree is scoped, and how a tree diff is
//! classified into a report. Repository access, downloads and manifest parsing
//! hand their results to it as plain values.
pub mod cratesio;
pub mod error;
pub mod history;
pub mod manifest;
pub mod ossf;
pub mod remote_url;
pub mod report;
pub mod tags;
pub mod text;
pub mod workspace;

pub use cratesio::{
    total_dependents_from_response, version_downloads_from_response, CratesioReport, RegistryError,
};
pub use error::DiffError;
pub use history::{
    commit_is_release, needs_versions, resolve_from_history, CommitObservation, HistoryWalk,
};
pub use manifest::{
    get_subdirectory_tree, is_manifest_file_name, is_root_path, locate_package_toml,
    manifest_directory, package_version, ManifestRecord, ManifestRole,
};
pub use ossf::{OSSFClient, OSSFReport, PackageOSSFReport};
pub use remote_url::trim_remote_url;
pub use report::{
    analyze_crate_source_diff, get_crate_source_file_diff_report, is_ignored_path,
    release_commits, AnalysisOutcome, CrateSourceDiffReport, DeltaStatus, FileDelta,
    FileDiffStats, HeadCommitNotFoundError,
};
pub use tags::{resolve_from_tags, TagRef};
pub use text::{ends_with, same_text};
pub use workspace::{clone_dir_name, download_url, single_extracted_entry, tarball_dir_name};
