use depdive::{
    analyze_crate_source_diff, get_crate_source_file_diff_report, get_subdirectory_tree,
    is_ignored_path, is_manifest_file_name, is_root_path, locate_package_toml, manifest_directory,
    package_version, trim_remote_url, AnalysisOutcome, DeltaStatus, DiffError, FileDelta,
    ManifestRecord, ManifestRole,
};

fn delta(status: DeltaStatus, path: &str) -> FileDelta {
    FileDelta { status, old_path: Some(path.to_string()), new_path: Some(path.to_string()) }
}

fn record(path: &str, role: ManifestRole, name: Option<&str>, version: Option<&str>) -> ManifestRecord {
    ManifestRecord {
        path: path.to_string(),
        role,
        name: name.map(|n| n.to_string()),
        version: version.map(|v| v.to_string()),
    }
}

#[test]
fn test_diff_trim_git_url() {
    let url = "https://github.com/facebookincubator/cargo-guppy/tree/main/guppy";
    let trimmed_url = trim_remote_url(url).unwrap();
    assert_eq!(trimmed_url, "https://github.com/facebookincubator/cargo-guppy");
}

#[test]
fn trim_url_drops_git_suffix() {
    assert_eq!(trim_remote_url("https://github.com/owner/repo.git").unwrap(), "https://github.com/owner/repo");
    assert_eq!(trim_remote_url("http://gitlab.com/a/b.git.git/c").unwrap(), "https://gitlab.com/a/b");
}

#[test]
fn trim_url_errors() {
    assert_eq!(trim_remote_url("not a url"), Err(DiffError::InvalidUrl));
    assert_eq!(trim_remote_url("mailto:someone@example.com"), Err(DiffError::MissingHost));
    assert_eq!(trim_remote_url("https://github.com/owner"), Err(DiffError::MissingRepository));
}

fn guppy_records() -> Vec<ManifestRecord> {
    vec![
        record("Cargo.toml", ManifestRole::Workspace, None, None),
        record("guppy-summaries/Cargo.toml", ManifestRole::Package, Some("guppy-summaries"), Some("0.3.0")),
        record("guppy/Cargo.toml", ManifestRole::Package, Some("guppy"), Some("0.9.0")),
    ]
}

#[test]
fn test_diff_locate_cargo_toml() {
    let path = locate_package_toml(&guppy_records(), "guppy").unwrap();
    assert_eq!("guppy/Cargo.toml", path);

    let octocrab = vec![record("Cargo.toml", ManifestRole::Package, Some("octocrab"), Some("0.9.1"))];
    let path = locate_package_toml(&octocrab, "octocrab").unwrap();
    assert_eq!("Cargo.toml", path);
}

#[test]
fn locate_manifest_not_found() {
    assert_eq!(locate_package_toml(&guppy_records(), "hakari"), Err(DiffError::ManifestNotFound));
    let workspace_only = vec![record("Cargo.toml", ManifestRole::Workspace, Some("guppy"), None)];
    assert_eq!(locate_package_toml(&workspace_only, "guppy"), Err(DiffError::ManifestNotFound));
}

#[test]
fn package_version_of_located_manifest() {
    assert_eq!(package_version(&guppy_records(), "guppy"), Some("0.9.0".to_string()));
    assert_eq!(package_version(&guppy_records(), "hakari"), None);
}

#[test]
fn manifest_file_names() {
    assert!(is_manifest_file_name("Cargo.toml"));
    assert!(!is_manifest_file_name("Cargo.lock"));
    assert!(!is_manifest_file_name("toml"));
}

#[test]
fn manifest_directories() {
    assert_eq!(manifest_directory("guppy/Cargo.toml").unwrap(), "guppy");
    assert_eq!(manifest_directory("a/b/Cargo.toml").unwrap(), "a/b");
    assert_eq!(manifest_directory("Cargo.toml").unwrap(), "");
    assert_eq!(manifest_directory(""), Err(DiffError::ManifestAtRoot));
}

#[test]
fn test_diff_get_subdirectory_tree() {
    let tree = "0f1e2d3c4b5a69788796a5b4c3d2e1f00f1e2d3c".to_string();
    let sub = Some("9a8b7c6d5e4f30211203f4e5d6c7b8a99a8b7c6d".to_string());
    let subdirectory_tree = get_subdirectory_tree(&tree, "guppy", sub).unwrap();
    assert_ne!(tree, subdirectory_tree);
}

#[test]
fn scope_to_root_is_identity() {
    let tree = "0f1e2d3c".to_string();
    assert_eq!(get_subdirectory_tree(&tree, "", Some("other".to_string())).unwrap(), tree);
    assert_eq!(get_subdirectory_tree(&tree, "", None).unwrap(), tree);
    assert!(is_root_path("./"));
    assert!(!is_root_path("guppy"));
    assert_eq!(get_subdirectory_tree(&tree, "missing", None), Err(DiffError::PathNotFound));
}

#[test]
fn ignored_paths() {
    assert!(is_ignored_path("Cargo.toml"));
    assert!(is_ignored_path(".cargo_vcs_info.json"));
    assert!(is_ignored_path("LICENSE-APACHE"));
    assert!(!is_ignored_path("src/lib.rs"));
    assert!(!is_ignored_path("sub/Cargo.toml"));
}

#[test]
fn no_repository_report() {
    let report = analyze_crate_source_diff("pkg", "1.0.0", &AnalysisOutcome::NoRepository).unwrap();
    assert_eq!(report.name, "pkg");
    assert_eq!(report.version, "1.0.0");
    assert!(report.release_commit_found.is_none());
    assert!(report.release_commit_analyzed.is_none());
    assert!(report.is_different.is_none());
    assert!(report.file_diff_stats.is_none());
}

#[test]
fn commit_not_found_and_manifest_not_found_reports() {
    let report = analyze_crate_source_diff("pkg", "1.0.0", &AnalysisOutcome::CommitNotFound).unwrap();
    assert_eq!(report.release_commit_found, Some(false));
    assert!(report.file_diff_stats.is_none());
    let report = analyze_crate_source_diff("pkg", "1.0.0", &AnalysisOutcome::ManifestNotFound).unwrap();
    assert_eq!(report.release_commit_found, Some(true));
    assert_eq!(report.release_commit_analyzed, Some(false));
    assert!(report.is_different.is_none());
}

#[test]
fn test_diff_crate_source_diff_analyzer() {
    // only registry files differ, and a file left out of the package
    let deltas = vec![
        delta(DeltaStatus::Modified, "Cargo.toml"),
        delta(DeltaStatus::Added, "Cargo.toml.orig"),
        delta(DeltaStatus::Added, ".cargo_vcs_info.json"),
        delta(DeltaStatus::Deleted, "tests/fixtures.rs"),
    ];
    let report = analyze_crate_source_diff("guppy", "0.9.0", &AnalysisOutcome::Compared(deltas)).unwrap();
    assert!(report.release_commit_found.unwrap());
    assert!(report.release_commit_analyzed.unwrap());
    assert!(report.file_diff_stats.is_some());
    assert!(!report.is_different.unwrap());
    let stats = report.file_diff_stats.unwrap();
    assert!(stats.files_added.is_empty());
    assert!(stats.files_modified.is_empty());
    assert_eq!(stats.files_deleted, vec!["tests/fixtures.rs".to_string()]);
}

#[test]
fn identical_trees_are_not_different() {
    let report = analyze_crate_source_diff("pkg", "1.0.0", &AnalysisOutcome::Compared(Vec::new())).unwrap();
    assert_eq!(report.is_different, Some(false));
    let stats = report.file_diff_stats.unwrap();
    assert!(stats.files_added.is_empty() && stats.files_modified.is_empty() && stats.files_deleted.is_empty());
}

#[test]
fn added_and_modified_files_are_different() {
    let deltas = vec![
        delta(DeltaStatus::Added, "src/extra.rs"),
        delta(DeltaStatus::Modified, "src/lib.rs"),
        delta(DeltaStatus::Modified, "README.md"),
        delta(DeltaStatus::Added, "Cargo.lock"),
        delta(DeltaStatus::Renamed, "src/moved.rs"),
    ];
    let report = analyze_crate_source_diff("pkg", "1.0.0", &AnalysisOutcome::Compared(deltas)).unwrap();
    assert_eq!(report.is_different, Some(true));
    let stats = report.file_diff_stats.unwrap();
    assert_eq!(stats.files_added, vec!["src/extra.rs".to_string()]);
    assert_eq!(stats.files_modified, vec!["src/lib.rs".to_string()]);
    assert!(stats.files_deleted.is_empty());
}

#[test]
fn deleted_path_taken_from_old_side() {
    let deltas = vec![
        FileDelta { status: DeltaStatus::Deleted, old_path: Some("src/gone.rs".to_string()), new_path: None },
        delta(DeltaStatus::Added, "src/new.rs"),
        delta(DeltaStatus::Added, "src/new.rs"),
    ];
    let stats = get_crate_source_file_diff_report(&deltas).unwrap();
    assert_eq!(stats.files_deleted, vec!["src/gone.rs".to_string()]);
    assert_eq!(stats.files_added, vec!["src/new.rs".to_string()]);
    assert!(stats.is_different());
}

#[test]
fn delta_without_path_is_an_error() {
    let deltas = vec![FileDelta { status: DeltaStatus::Added, old_path: None, new_path: None }];
    assert_eq!(get_crate_source_file_diff_report(&deltas).err(), Some(DiffError::MissingDeltaPath));
    assert_eq!(
        analyze_crate_source_diff("pkg", "1.0.0", &AnalysisOutcome::Compared(deltas)).err(),
        Some(DiffError::MissingDeltaPath)
    );
}
