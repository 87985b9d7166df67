use depdive::{
    commit_is_release, needs_versions, release_commits, resolve_from_history, resolve_from_tags,
    CommitObservation, DiffError, HistoryWalk, TagRef,
};

fn tag(name: &str, commit: &str) -> TagRef {
    TagRef { name: name.to_string(), commit: commit.to_string() }
}

fn obs(
    id: &str,
    parent_count: usize,
    touches_manifest: bool,
    version: Option<&str>,
    parent_version: Option<&str>,
) -> CommitObservation {
    CommitObservation {
        id: id.to_string(),
        parent_count,
        touches_manifest,
        version: version.map(|v| v.to_string()),
        parent_version: parent_version.map(|v| v.to_string()),
    }
}

fn test_repo_tags() -> Vec<TagRef> {
    vec![
        tag("v10.0.8", "51efd612af12183a682bb3242d41369d2879ad60"),
        tag("hakari-0.3.0", "946ddf053582067b843c19f1270fe92eaa0a7cb3"),
        tag("guppy-0.3.0", "dd7e5609e640f468a7e15a32fe36b607bae13e3e"),
        tag("guppy-summaries-0.3.0", "24e00d39f90baa1daa2ef6f9a2bdb49e581874b3"),
    ]
}

#[test]
fn test_diff_head_commit_oid_for_version_from_tags() {
    let name = "test-version-tag";
    let tags = test_repo_tags();
    let oid = resolve_from_tags(&tags, name, "0.0.8").unwrap();
    assert!(oid.is_none());
    let oid = resolve_from_tags(&tags, name, "10.0.8").unwrap();
    assert_eq!(oid.unwrap(), "51efd612af12183a682bb3242d41369d2879ad60");
    let oid = resolve_from_tags(&tags, name, "10.0.8-").unwrap();
    assert!(oid.is_none());

    let oid = resolve_from_tags(&tags, "hakari", "0.3.0").unwrap();
    assert_eq!(oid.unwrap(), "946ddf053582067b843c19f1270fe92eaa0a7cb3");
    let oid = resolve_from_tags(&tags, "guppy", "0.3.0").unwrap();
    assert_eq!(oid.unwrap(), "dd7e5609e640f468a7e15a32fe36b607bae13e3e");
    let oid = resolve_from_tags(&tags, "guppy-summaries", "0.3.0").unwrap();
    assert_eq!(oid.unwrap(), "24e00d39f90baa1daa2ef6f9a2bdb49e581874b3");
}

#[test]
fn tags_single_commit_after_first_stage() {
    let tags = vec![tag("v1.2.3", "aaa"), tag("release-1.2.3", "aaa"), tag("v11.2.3", "bbb")];
    assert_eq!(resolve_from_tags(&tags, "pkg", "1.2.3").unwrap(), Some("aaa".to_string()));
}

#[test]
fn tags_word_separator_fails_last_stage() {
    let tags = vec![tag("pkg-1.0.0", "aaa"), tag("pkg_1.0.0", "bbb")];
    assert_eq!(resolve_from_tags(&tags, "pkg", "1.0.0").unwrap(), Some("aaa".to_string()));
}

#[test]
fn tags_ambiguous_through_all_stages() {
    let tags = vec![tag("pkg-1.0.0", "aaa"), tag("pkg/1.0.0", "bbb")];
    assert_eq!(resolve_from_tags(&tags, "pkg", "1.0.0").unwrap(), None);
}

#[test]
fn tags_no_candidates() {
    let tags: Vec<TagRef> = Vec::new();
    assert_eq!(resolve_from_tags(&tags, "pkg", "1.0.0").unwrap(), None);
}

#[test]
fn tags_ten_is_not_zero() {
    let tags = vec![tag("v10.1.8", "aaa")];
    assert_eq!(resolve_from_tags(&tags, "pkg", "0.1.8").unwrap(), None);
    assert_eq!(resolve_from_tags(&tags, "pkg", "0.8").unwrap(), None);
    assert_eq!(resolve_from_tags(&tags, "pkg", "10.1.8").unwrap(), Some("aaa".to_string()));
}

#[test]
fn tags_aliases_of_one_commit_deduplicated() {
    let tags = vec![tag("v0.3.0", "ccc"), tag("old-v0.3.0", "ccc")];
    assert_eq!(resolve_from_tags(&tags, "pkg", "0.3.0").unwrap(), Some("ccc".to_string()));
}

#[test]
fn tags_name_prefix_of_other_package() {
    let tags = vec![tag("foo-1.0.0", "aaa"), tag("foo-utils-1.0.0", "bbb")];
    assert_eq!(resolve_from_tags(&tags, "foo", "1.0.0").unwrap(), Some("aaa".to_string()));
    assert_eq!(resolve_from_tags(&tags, "foo-utils", "1.0.0").unwrap(), Some("bbb".to_string()));
}

#[test]
fn tags_invalid_pattern_is_an_error() {
    let tags = vec![tag("(-1.0.0", "aaa"), tag("x-1.0.0", "bbb")];
    assert_eq!(resolve_from_tags(&tags, "(", "1.0.0"), Err(DiffError::InvalidTagPattern));
}

fn unicase_history() -> Vec<CommitObservation> {
    vec![
        obs("head000000000000000000000000000000000000", 1, false, None, None),
        obs("141699ceaf145621eea41ce7597d3ade42902c37", 1, true, Some("2.5.1"), Some("2.5.0")),
        obs("merge00000000000000000000000000000000000", 2, true, Some("0.0.1"), None),
        obs("bump0000000000000000000000000000000000000", 1, true, Some("0.0.2"), Some("0.0.1")),
        obs("5834ee501c350ce5db5d1e62df3b7c207219a803", 1, true, Some("0.0.1"), None),
        obs("1236f7b92854174eba20b5d3a13aaeb5a34a6bff", 0, false, Some("0.0.1"), None),
    ]
}

#[test]
fn test_diff_head_commit_oid_from_cargo_toml() {
    let history = unicase_history();
    // Case 1: Version updated
    assert_eq!(
        resolve_from_history(&history, "2.5.1").unwrap(),
        "141699ceaf145621eea41ce7597d3ade42902c37"
    );
    // Case 2: Package manifest added (renamed in this case)
    assert_eq!(
        resolve_from_history(&history, "0.0.1").unwrap(),
        "5834ee501c350ce5db5d1e62df3b7c207219a803"
    );
    // Case 3: Initial commit
    let initial = vec![obs("1236f7b92854174eba20b5d3a13aaeb5a34a6bff", 0, false, Some("0.0.1"), None)];
    assert_eq!(
        resolve_from_history(&initial, "0.0.1").unwrap(),
        "1236f7b92854174eba20b5d3a13aaeb5a34a6bff"
    );
    // Case 4: Commit not found
    assert!(resolve_from_history(&history, "0.0.0").is_none());
}

#[test]
fn test_diff_head_commit_oid() {
    let tags = vec![tag("v2.4.0", "8a93c809b061615bfa1021e9ab3bd115b8f3b1cc")];
    let history = vec![
        obs("head000000000000000000000000000000000000", 1, true, Some("2.4.0"), Some("2.3.0")),
        obs("dc1fa6bad26f0f40f415146fb581a928e214981a", 1, true, Some("0.0.5"), Some("0.0.4")),
    ];
    // Case 1: Tag exists
    let from_tags = resolve_from_tags(&tags, "unicase", "2.4.0").unwrap();
    assert_eq!(from_tags.unwrap(), "8a93c809b061615bfa1021e9ab3bd115b8f3b1cc");
    // Case 2: Tag doesn't exist
    assert!(resolve_from_tags(&tags, "unicase", "0.0.5").unwrap().is_none());
    assert_eq!(
        resolve_from_history(&history, "0.0.5").unwrap(),
        "dc1fa6bad26f0f40f415146fb581a928e214981a"
    );
}

#[test]
fn history_most_recent_release_wins() {
    // newest first: manifest deleted and re-added at v2 under a new name,
    // then an unedited commit, then the v1 -> v2 bump
    let history = vec![
        obs("readded", 1, true, Some("2.0.0"), None),
        obs("unedited", 1, false, Some("2.0.0"), Some("2.0.0")),
        obs("bump", 1, true, Some("2.0.0"), Some("1.0.0")),
        obs("initial", 0, false, Some("1.0.0"), None),
    ];
    assert_eq!(resolve_from_history(&history, "2.0.0"), Some("readded".to_string()));
    assert_eq!(resolve_from_history(&history, "1.0.0"), Some("initial".to_string()));
}

#[test]
fn history_merge_never_resolved() {
    let history = vec![obs("merge", 2, true, Some("1.0.0"), Some("0.9.0"))];
    assert_eq!(resolve_from_history(&history, "1.0.0"), None);
    assert!(!commit_is_release(&history[0], "1.0.0"));
}

#[test]
fn history_version_not_raised_is_no_release() {
    let down = obs("down", 1, true, Some("1.0.0"), Some("1.2.0"));
    assert!(!commit_is_release(&down, "1.0.0"));
    let same = obs("same", 1, true, Some("1.0.0"), Some("1.0.0"));
    assert!(!commit_is_release(&same, "1.0.0"));
    let pre = obs("pre", 1, true, Some("1.0.0"), Some("1.0.0-rc.1"));
    assert!(commit_is_release(&pre, "1.0.0"));
    let untouched = obs("untouched", 1, false, Some("1.0.0"), Some("0.9.0"));
    assert!(!commit_is_release(&untouched, "1.0.0"));
}

#[test]
fn history_needs_versions() {
    assert!(needs_versions(0, false));
    assert!(needs_versions(1, true));
    assert!(!needs_versions(1, false));
    assert!(!needs_versions(2, true));
}

#[test]
fn test_diff_version_diff() {
    let a = Some("dc6dcc151821e787ac02379bcd0319b26c962f55".to_string());
    let b = Some("fe61a8b85feab1963ee1985bf0e4791fdd354aa5".to_string());
    let (commit_a, commit_b) = release_commits("guppy", "0.8.0", a, "0.9.0", b).unwrap();
    assert_eq!(commit_a, "dc6dcc151821e787ac02379bcd0319b26c962f55");
    assert_eq!(commit_b, "fe61a8b85feab1963ee1985bf0e4791fdd354aa5");
}

#[test]
fn test_diff_head_commit_not_found_error() {
    let b = Some("fe61a8b85feab1963ee1985bf0e4791fdd354aa5".to_string());
    let err = release_commits("guppy", "0.0.0", None, "0.9.0", b).err().unwrap();
    assert_eq!(err.crate_name, "guppy");
    assert_eq!(err.version, "0.0.0");
}

#[test]
fn version_pair_neither_resolves_names_first() {
    let err = release_commits("pkg", "1.0.0", None, "2.0.0", None).err().unwrap();
    assert_eq!(err.crate_name, "pkg");
    assert_eq!(err.version, "1.0.0");
    let err = release_commits("pkg", "1.0.0", Some("aaa".to_string()), "2.0.0", None).err().unwrap();
    assert_eq!(err.version, "2.0.0");
}

#[test]
fn history_walk_stops_at_first_release() {
    let history = unicase_history();
    let mut walk = HistoryWalk::new("0.0.1");
    let mut steps = 0;
    for o in &history {
        steps += 1;
        if walk.observe(o) {
            break;
        }
    }
    assert_eq!(steps, 5);
    assert_eq!(walk.result().unwrap(), "5834ee501c350ce5db5d1e62df3b7c207219a803");
    let mut none = HistoryWalk::new("9.9.9");
    for o in &history {
        assert!(!none.observe(o));
    }
    assert!(none.result().is_none());
}
