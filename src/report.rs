//! Classifies the changes between two trees and assembles the reports of an
//! analysis.
use vstd::prelude::*;
use crate::error::DiffError;
use crate::text::{contains_text, distinct_texts, insert_text, same_text, text_of};

verus! {

/// How a file differs between the two trees of a diff.
#[derive(Debug, Clone, Copy, PartialEq, Eq, Structural)]
pub enum DeltaStatus {
    Unmodified,
    Added,
    Deleted,
    Modified,
    Renamed,
    Copied,
    Ignored,
    Untracked,
    Typechange,
    Unreadable,
    Conflicted,
}

/// One changed file of a tree diff: its status and its path on each side.
pub struct FileDelta {
    pub status: DeltaStatus,
    pub old_path: Option<String>,
    pub new_path: Option<String>,
}

/// The files added, modified and deleted between two trees, leaving out the
/// files that a registry rewrites on every publish. No set repeats a path.
#[derive(Debug, Clone)]
pub struct FileDiffStats {
    pub files_added: Vec<String>,
    pub files_modified: Vec<String>,
    pub files_deleted: Vec<String>,
}

/// The report on one release: how far its analysis came, and what it found.
/// A field left `None` means the analysis stopped before that stage.
#[derive(Debug, Clone)]
pub struct CrateSourceDiffReport {
    pub name: String,
    pub version: String,
    pub release_commit_found: Option<bool>,
    pub release_commit_analyzed: Option<bool>,
    pub is_different: Option<bool>,
    pub file_diff_stats: Option<FileDiffStats>,
}

/// The stage an analysis of a release reached.
pub enum AnalysisOutcome {
    /// The package names no repository.
    NoRepository,
    /// Neither the tags nor the manifest history gave the release commit.
    CommitNotFound,
    /// The release commit was found, but no manifest of the package in it.
    ManifestNotFound,
    /// The upstream tree was compared with the published one: these are the
    /// changes from the first to the second.
    Compared(Vec<FileDelta>),
}

/// A release whose commit could not be found in the repository.
#[derive(Debug, Clone)]
pub struct HeadCommitNotFoundError {
    pub crate_name: String,
    pub version: String,
}

/// A file that the registry writes or rewrites on every publish.
pub open spec fn is_registry_file(p: Seq<char>) -> bool {
    ||| p == ".cargo_vcs_info.json"@
    ||| p == "Cargo.toml"@
    ||| p == "Cargo.toml.orig"@
    ||| p == "Cargo.lock"@
    ||| p == "README.md"@
    ||| p == "CHANGELOG.md"@
    ||| p == "LICENSE.md"@
    ||| p == "LICENSE-MIT"@
    ||| p == "LICENSE-APACHE"@
    ||| p == "crates-io.md"@
}

/// Whether the registry writes or rewrites the file at `path` on every publish.
pub fn is_ignored_path(path: &str) -> (r: bool)
    ensures
        r == is_registry_file(path@),
{
    same_text(path, ".cargo_vcs_info.json") || same_text(path, "Cargo.toml") || same_text(
        path,
        "Cargo.toml.orig",
    ) || same_text(path, "Cargo.lock") || same_text(path, "README.md") || same_text(
        path,
        "CHANGELOG.md",
    ) || same_text(path, "LICENSE.md") || same_text(path, "LICENSE-MIT") || same_text(
        path,
        "LICENSE-APACHE",
    ) || same_text(path, "crates-io.md")
}

/// The path a delta reports: its new path, else its old one.
pub open spec fn delta_path(d: FileDelta) -> Option<Seq<char>> {
    match d.new_path {
        Some(p) => Some(p@),
        None => text_of(d.old_path),
    }
}

/// Some delta before index `j` with status `st` reports the path `p`, and the
/// registry does not rewrite `p`.
pub open spec fn changed_before(deltas: Seq<FileDelta>, j: int, st: DeltaStatus, p: Seq<char>) -> bool {
    exists|i: int|
        0 <= i < j && deltas[i].status == st && delta_path(deltas[i]) == Some(p)
            && !is_registry_file(p)
}

/// Every delta reports a path.
pub open spec fn all_have_paths(deltas: Seq<FileDelta>) -> bool {
    forall|i: int| 0 <= i < deltas.len() ==> (#[trigger] delta_path(deltas[i])) is Some
}

/// `v` holds exactly the paths of the deltas with status `st` that the
/// registry does not rewrite, each once.
pub open spec fn holds_changed(v: Seq<String>, deltas: Seq<FileDelta>, st: DeltaStatus) -> bool {
    &&& distinct_texts(v)
    &&& forall|p: Seq<char>|
        #[trigger] contains_text(v, p) == changed_before(deltas, deltas.len() as int, st, p)
}

/// `s` classifies the deltas.
pub open spec fn classifies(s: FileDiffStats, deltas: Seq<FileDelta>) -> bool {
    &&& holds_changed(s.files_added@, deltas, DeltaStatus::Added)
    &&& holds_changed(s.files_modified@, deltas, DeltaStatus::Modified)
    &&& holds_changed(s.files_deleted@, deltas, DeltaStatus::Deleted)
}

/// Something was added or modified: deletions alone are files that the
/// package leaves out on purpose.
pub open spec fn differs(s: FileDiffStats) -> bool {
    s.files_added@.len() > 0 || s.files_modified@.len() > 0
}

impl FileDiffStats {
    /// Whether files were added or modified.
    pub fn is_different(&self) -> (r: bool)
        ensures
            r == differs(*self),
    {
        self.files_added.len() > 0 || self.files_modified.len() > 0
    }
}

/// Classifies the changes of a tree diff into added, modified and deleted
/// paths, leaving out the files that a registry rewrites on every publish.
/// Fails with `MissingDeltaPath` where a delta reports no path.
pub fn get_crate_source_file_diff_report(deltas: &Vec<FileDelta>) -> (r: Result<
    FileDiffStats,
    DiffError,
>)
    ensures
        match r {
            Ok(s) => all_have_paths(deltas@) && classifies(s, deltas@),
            Err(e) => e == DiffError::MissingDeltaPath && !all_have_paths(deltas@),
        },
        r matches Ok(s) ==> forall|i: int| 0 <= i < s.files_added@.len() ==> !is_registry_file(#[trigger] s.files_added@[i]@),
        r matches Ok(s) ==> forall|i: int| 0 <= i < s.files_modified@.len() ==> !is_registry_file(#[trigger] s.files_modified@[i]@),
        r matches Ok(s) ==> forall|i: int| 0 <= i < s.files_deleted@.len() ==> !is_registry_file(#[trigger] s.files_deleted@[i]@),
{
    let mut added: Vec<String> = Vec::new();
    let mut modified: Vec<String> = Vec::new();
    let mut deleted: Vec<String> = Vec::new();
    let n = deltas.len();
    let mut i: usize = 0;
    while i < n
        invariant
            n == deltas@.len(),
            0 <= i <= n,
            forall|j: int| 0 <= j < i ==> (#[trigger] delta_path(deltas@[j])) is Some,
            distinct_texts(added@),
            distinct_texts(modified@),
            distinct_texts(deleted@),
            forall|p: Seq<char>|
                #[trigger] contains_text(added@, p) == changed_before(deltas@, i as int, DeltaStatus::Added, p),
            forall|p: Seq<char>|
                #[trigger] contains_text(modified@, p) == changed_before(deltas@, i as int, DeltaStatus::Modified, p),
            forall|p: Seq<char>|
                #[trigger] contains_text(deleted@, p) == changed_before(deltas@, i as int, DeltaStatus::Deleted, p),
        decreases n - i,
    {
        let d = &deltas[i];
        let path = match &d.new_path {
            Some(p) => p.clone(),
            None => match &d.old_path {
                Some(p) => p.clone(),
                None => {
                    proof {
                        assert(delta_path(deltas@[i as int]) is None);
                    }
                    return Err(DiffError::MissingDeltaPath);
                },
            },
        };
        let ghost pv = path@;
        assert(delta_path(deltas@[i as int]) == Some(pv));
        let ignored = is_ignored_path(path.as_str());
        let st = d.status;
        let ghost a0 = added@;
        let ghost m0 = modified@;
        let ghost d0 = deleted@;
        if !ignored {
            match st {
                DeltaStatus::Added => insert_text(&mut added, path),
                DeltaStatus::Modified => insert_text(&mut modified, path),
                DeltaStatus::Deleted => insert_text(&mut deleted, path),
                _ => {},
            }
        }
        proof {
            assert forall|p: Seq<char>|
                #[trigger] contains_text(added@, p) == changed_before(deltas@, i + 1, DeltaStatus::Added, p) by {
                if changed_before(deltas@, i + 1, DeltaStatus::Added, p) {
                    let k = choose|k: int| 0 <= k < i + 1 && deltas@[k].status == DeltaStatus::Added && delta_path(deltas@[k]) == Some(p) && !is_registry_file(p);
                    if k < i {
                        assert(changed_before(deltas@, i as int, DeltaStatus::Added, p));
                    }
                }
                if changed_before(deltas@, i as int, DeltaStatus::Added, p) {
                    let k = choose|k: int| 0 <= k < i && deltas@[k].status == DeltaStatus::Added && delta_path(deltas@[k]) == Some(p) && !is_registry_file(p);
                    assert(changed_before(deltas@, i + 1, DeltaStatus::Added, p));
                }
            }
            assert forall|p: Seq<char>|
                #[trigger] contains_text(modified@, p) == changed_before(deltas@, i + 1, DeltaStatus::Modified, p) by {
                if changed_before(deltas@, i + 1, DeltaStatus::Modified, p) {
                    let k = choose|k: int| 0 <= k < i + 1 && deltas@[k].status == DeltaStatus::Modified && delta_path(deltas@[k]) == Some(p) && !is_registry_file(p);
                    if k < i {
                        assert(changed_before(deltas@, i as int, DeltaStatus::Modified, p));
                    }
                }
                if changed_before(deltas@, i as int, DeltaStatus::Modified, p) {
                    let k = choose|k: int| 0 <= k < i && deltas@[k].status == DeltaStatus::Modified && delta_path(deltas@[k]) == Some(p) && !is_registry_file(p);
                    assert(changed_before(deltas@, i + 1, DeltaStatus::Modified, p));
                }
            }
            assert forall|p: Seq<char>|
                #[trigger] contains_text(deleted@, p) == changed_before(deltas@, i + 1, DeltaStatus::Deleted, p) by {
                if changed_before(deltas@, i + 1, DeltaStatus::Deleted, p) {
                    let k = choose|k: int| 0 <= k < i + 1 && deltas@[k].status == DeltaStatus::Deleted && delta_path(deltas@[k]) == Some(p) && !is_registry_file(p);
                    if k < i {
                        assert(changed_before(deltas@, i as int, DeltaStatus::Deleted, p));
                    }
                }
                if changed_before(deltas@, i as int, DeltaStatus::Deleted, p) {
                    let k = choose|k: int| 0 <= k < i && deltas@[k].status == DeltaStatus::Deleted && delta_path(deltas@[k]) == Some(p) && !is_registry_file(p);
                    assert(changed_before(deltas@, i + 1, DeltaStatus::Deleted, p));
                }
            }
        }
        i = i + 1;
    }
    let s = FileDiffStats { files_added: added, files_modified: modified, files_deleted: deleted };
    proof {
        assert forall|i: int| 0 <= i < s.files_added@.len() implies !is_registry_file(#[trigger] s.files_added@[i]@) by {
            assert(contains_text(s.files_added@, s.files_added@[i]@));
        }
        assert forall|i: int| 0 <= i < s.files_modified@.len() implies !is_registry_file(#[trigger] s.files_modified@[i]@) by {
            assert(contains_text(s.files_modified@, s.files_modified@[i]@));
        }
        assert forall|i: int| 0 <= i < s.files_deleted@.len() implies !is_registry_file(#[trigger] s.files_deleted@[i]@) by {
            assert(contains_text(s.files_deleted@, s.files_deleted@[i]@));
        }
    }
    Ok(s)
}

/// Where every change is to a file that the registry rewrites, nothing is
/// reported added or modified, and the trees are not different.
pub proof fn lemma_registry_changes_only(s: FileDiffStats, deltas: Seq<FileDelta>)
    requires
        classifies(s, deltas),
        forall|i: int|
            0 <= i < deltas.len() ==> match #[trigger] delta_path(deltas[i]) {
                Some(p) => is_registry_file(p),
                None => true,
            },
    ensures
        s.files_added@.len() == 0,
        s.files_modified@.len() == 0,
        !differs(s),
{
    if s.files_added@.len() > 0 {
        assert(contains_text(s.files_added@, s.files_added@[0]@));
    }
    if s.files_modified@.len() > 0 {
        assert(contains_text(s.files_modified@, s.files_modified@[0]@));
    }
}

/// A file that upstream lacks and the published tree has is reported added,
/// one that differs between them is reported modified, unless the registry
/// rewrites it; either makes the trees different.
pub proof fn lemma_added_and_modified_reported(
    s: FileDiffStats,
    deltas: Seq<FileDelta>,
    i: int,
    p: Seq<char>,
)
    requires
        classifies(s, deltas),
        0 <= i < deltas.len(),
        delta_path(deltas[i]) == Some(p),
        deltas[i].status == DeltaStatus::Added || deltas[i].status == DeltaStatus::Modified,
        !is_registry_file(p),
    ensures
        deltas[i].status == DeltaStatus::Added ==> contains_text(s.files_added@, p),
        deltas[i].status == DeltaStatus::Modified ==> contains_text(s.files_modified@, p),
        differs(s),
{
    if deltas[i].status == DeltaStatus::Added {
        assert(changed_before(deltas, deltas.len() as int, DeltaStatus::Added, p));
        assert(contains_text(s.files_added@, p));
    } else {
        assert(changed_before(deltas, deltas.len() as int, DeltaStatus::Modified, p));
        assert(contains_text(s.files_modified@, p));
    }
}

/// The report's name and version are the release's.
pub open spec fn names_release(r: CrateSourceDiffReport, name: Seq<char>, version: Seq<char>) -> bool {
    r.name@ == name && r.version@ == version
}

/// The report of a comparison: commit found and analyzed, the deltas
/// classified, and the difference decided from them.
pub open spec fn compared_report(rep: CrateSourceDiffReport, deltas: Seq<FileDelta>) -> bool {
    &&& rep.release_commit_found == Some(true)
    &&& rep.release_commit_analyzed == Some(true)
    &&& rep.file_diff_stats matches Some(s) && classifies(s, deltas) && rep.is_different == Some(
        differs(s),
    )
}

/// Assembles the report on version `version` of package `name` from the stage
/// its analysis reached. Where no repository was named, only the name and
/// version are filled in; where the release commit was not found, only that;
/// where no manifest was found at the commit, the commit is reported found and
/// not analyzed; after a comparison, the classified changes, and whether
/// files were added or modified. Fails only where a compared delta reports no
/// path.
pub fn analyze_crate_source_diff(name: &str, version: &str, outcome: &AnalysisOutcome) -> (r: Result<
    CrateSourceDiffReport,
    DiffError,
>)
    ensures
        match outcome {
            AnalysisOutcome::NoRepository => r matches Ok(rep) && names_release(rep, name@, version@)
                && rep.release_commit_found is None && rep.release_commit_analyzed is None
                && rep.is_different is None && rep.file_diff_stats is None,
            AnalysisOutcome::CommitNotFound => r matches Ok(rep) && names_release(rep, name@, version@)
                && rep.release_commit_found == Some(false) && rep.release_commit_analyzed is None
                && rep.is_different is None && rep.file_diff_stats is None,
            AnalysisOutcome::ManifestNotFound => r matches Ok(rep) && names_release(rep, name@, version@)
                && rep.release_commit_found == Some(true) && rep.release_commit_analyzed == Some(false)
                && rep.is_different is None && rep.file_diff_stats is None,
            AnalysisOutcome::Compared(deltas) => if all_have_paths(deltas@) {
                r matches Ok(rep) && names_release(rep, name@, version@) && compared_report(
                    rep,
                    deltas@,
                )
            } else {
                r == Err::<CrateSourceDiffReport, DiffError>(DiffError::MissingDeltaPath)
            },
        },
{
    let name = name.to_owned();
    let version = version.to_owned();
    match outcome {
        AnalysisOutcome::NoRepository => Ok(CrateSourceDiffReport {
            name,
            version,
            release_commit_found: None,
            release_commit_analyzed: None,
            is_different: None,
            file_diff_stats: None,
        }),
        AnalysisOutcome::CommitNotFound => Ok(CrateSourceDiffReport {
            name,
            version,
            release_commit_found: Some(false),
            release_commit_analyzed: None,
            is_different: None,
            file_diff_stats: None,
        }),
        AnalysisOutcome::ManifestNotFound => Ok(CrateSourceDiffReport {
            name,
            version,
            release_commit_found: Some(true),
            release_commit_analyzed: Some(false),
            is_different: None,
            file_diff_stats: None,
        }),
        AnalysisOutcome::Compared(deltas) => {
            let stats = match get_crate_source_file_diff_report(deltas) {
                Ok(s) => s,
                Err(e) => {
                    return Err(e);
                },
            };
            let different = stats.is_different();
            Ok(CrateSourceDiffReport {
                name,
                version,
                release_commit_found: Some(true),
                release_commit_analyzed: Some(true),
                is_different: Some(different),
                file_diff_stats: Some(stats),
            })
        },
    }
}

/// The release that is missing when resolving two releases of package `name`
/// gave `commit_a` and `commit_b`: the first is looked at first.
pub open spec fn missing_release(
    name: Seq<char>,
    version_a: Seq<char>,
    commit_a: Option<Seq<char>>,
    version_b: Seq<char>,
    commit_b: Option<Seq<char>>,
) -> Option<(Seq<char>, Seq<char>)> {
    if commit_a is None {
        Some((name, version_a))
    } else if commit_b is None {
        Some((name, version_b))
    } else {
        None
    }
}

/// The commits of two releases of package `name`, where both were resolved;
/// else the error that names the first release that was not.
pub fn release_commits(
    name: &str,
    version_a: &str,
    commit_a: Option<String>,
    version_b: &str,
    commit_b: Option<String>,
) -> (r: Result<(String, String), HeadCommitNotFoundError>)
    ensures
        match missing_release(name@, version_a@, text_of(commit_a), version_b@, text_of(commit_b)) {
            Some((n, v)) => r matches Err(e) && e.crate_name@ == n && e.version@ == v,
            None => r matches Ok((a, b)) && commit_a == Some(a) && commit_b == Some(b),
        },
{
    let a = match commit_a {
        Some(a) => a,
        None => {
            return Err(HeadCommitNotFoundError { crate_name: name.to_owned(), version: version_a.to_owned() });
        },
    };
    let b = match commit_b {
        Some(b) => b,
        None => {
            return Err(HeadCommitNotFoundError { crate_name: name.to_owned(), version: version_b.to_owned() });
        },
    };
    Ok((a, b))
}

/// Where neither release resolves, the error names the first of them.
pub proof fn lemma_unresolved_pair_names_first(
    name: Seq<char>,
    version_a: Seq<char>,
    version_b: Seq<char>,
)
    ensures
        missing_release(name, version_a, None, version_b, None) == Some((name, version_a)),
{
}

} // verus!
