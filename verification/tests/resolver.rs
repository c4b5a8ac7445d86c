use pinner::cli::UpgradeStrategy;
use pinner::domain::{DependencyRef, UpdateTask};
use pinner::error::PinnerError;
use pinner::resolver::plan::{
    combine_outcomes, group_tasks, pin_step, results_for, upgrade_step, Fetch, Fetched, Resolver,
    Step,
};
use pinner::resolver::version::{is_newer, normalize_semver, parse_relaxed_semver, split_numeric_prefix};

#[test]
fn test_normalize_semver() {
    assert_eq!(normalize_semver("v3"), "3.0.0");
    assert_eq!(normalize_semver("3-alpha"), "3.0.0-alpha");
    assert_eq!(normalize_semver("4.1"), "4.1.0");
    assert_eq!(normalize_semver("4.1-beta"), "4.1.0-beta");
    assert_eq!(normalize_semver("v1.2.3"), "1.2.3");
    assert_eq!(normalize_semver("main"), "main");
}

#[test]
fn normalize_semver_edge_cases() {
    assert_eq!(normalize_semver(""), "");
    assert_eq!(normalize_semver("vv2"), "2.0.0");
    assert_eq!(normalize_semver("1.x"), "1.x");
    assert_eq!(normalize_semver(".5"), ".5");
    assert_eq!(normalize_semver("1.2.3.4"), "1.2.3.4");
}

#[test]
fn test_is_newer() {
    assert!(is_newer("v4", "v3"));
    assert!(is_newer("v6.0.3", "v6.0.2"));
    assert!(!is_newer("v4", "v6.0.2"));
    assert!(!is_newer("v6.0.2", "v6.0.2"));
    assert!(is_newer("v4", "main"));
    assert!(!is_newer("main", "v4"));
    assert!(!is_newer("main", "v1.0.0"));
}

#[test]
fn is_newer_non_versions_and_prereleases() {
    assert!(is_newer("develop", "main"));
    assert!(!is_newer("main", "main"));
    assert!(is_newer("v1.0.0", "v1.0.0-rc.1"));
    assert!(!is_newer("v1.0.0-rc.1", "v1.0.0"));
}

#[test]
fn split_numeric_prefix_cases() {
    assert_eq!(split_numeric_prefix("12ab"), Some(("12".to_string(), "ab".to_string())));
    assert_eq!(split_numeric_prefix("7"), Some(("7".to_string(), String::new())));
    assert_eq!(split_numeric_prefix("x1"), None);
    assert_eq!(split_numeric_prefix(""), None);
}

#[test]
fn parse_relaxed_semver_reads_parts() {
    let v = parse_relaxed_semver("v4.1-beta").unwrap();
    assert_eq!((v.major(), v.minor(), v.patch()), (4, 1, 0));
    assert_eq!(v.pre(), "beta");
    assert!(parse_relaxed_semver("main").is_none());
}

fn task(action: &str, tag: Option<&str>, key: &str) -> UpdateTask {
    UpdateTask {
        path: "f.yml".to_string(),
        action: action.into(),
        current_tag: tag.map(|t| t.to_string()),
        key: key.to_string(),
        ..Default::default()
    }
}

#[test]
fn pin_steps() {
    let t = task("actions/checkout", Some("v3"), "uses");
    match pin_step(&t, &vec![]) {
        Step::Request(Fetch::CommitSha { reference }) => assert_eq!(reference, "v3"),
        other => panic!("unexpected {:?}", other),
    }
    match pin_step(&t, &vec![Fetched::Sha(DependencyRef::GitSha("abc".into()))]) {
        Step::Done(Some((sha, tag))) => {
            assert_eq!(sha, DependencyRef::GitSha("abc".into()));
            assert_eq!(tag.as_deref(), Some("v3"));
        }
        other => panic!("unexpected {:?}", other),
    }
    let pinned = task("a/b", Some("de0fac2e4500dabe0009e67214ff5f5447ce83dd"), "uses");
    assert!(matches!(pin_step(&pinned, &vec![]), Step::Done(None)));
    let orb = task("circleci/node", Some("5.0.0"), "orbs");
    assert!(matches!(pin_step(&orb, &vec![]), Step::Done(None)));
    let image = task("docker://alpine", Some("3.19"), "uses");
    match pin_step(&image, &vec![]) {
        Step::Request(Fetch::Digest { image, tag }) => {
            assert_eq!(image, "alpine");
            assert_eq!(tag, "3.19");
        }
        other => panic!("unexpected {:?}", other),
    }
    match pin_step(&image, &vec![Fetched::Digest("sha256:d".into())]) {
        Step::Done(Some((r, tag))) => {
            assert_eq!(r, DependencyRef::DockerDigest("sha256:d".into()));
            assert_eq!(tag.as_deref(), Some("3.19"));
        }
        other => panic!("unexpected {:?}", other),
    }
    let digest = task("alpine", Some("sha256:x"), "image");
    assert!(matches!(pin_step(&digest, &vec![]), Step::Done(None)));
}

#[test]
fn upgrade_latest_steps() {
    let t = task("actions/checkout", Some("v3"), "uses");
    assert!(matches!(
        upgrade_step(&t, UpgradeStrategy::Latest, true, &vec![]),
        Step::Request(Fetch::LatestRelease)
    ));
    let replies = vec![Fetched::Release("v4".into())];
    match upgrade_step(&t, UpgradeStrategy::Latest, true, &replies) {
        Step::Request(Fetch::CommitSha { reference }) => assert_eq!(reference, "v4"),
        other => panic!("unexpected {:?}", other),
    }
    let replies = vec![Fetched::Release("v4".into()), Fetched::Sha(DependencyRef::GitSha("s4".into()))];
    match upgrade_step(&t, UpgradeStrategy::Latest, true, &replies) {
        Step::Done(Some((sha, tag))) => {
            assert_eq!(sha, DependencyRef::GitSha("s4".into()));
            assert_eq!(tag.as_deref(), Some("v4"));
        }
        other => panic!("unexpected {:?}", other),
    }
    // An older release is no upgrade.
    let replies = vec![Fetched::Release("v2".into())];
    assert!(matches!(upgrade_step(&t, UpgradeStrategy::Latest, true, &replies), Step::Done(None)));
    // Without the newer check the candidate is taken anyway.
    assert!(matches!(
        upgrade_step(&t, UpgradeStrategy::Latest, false, &replies),
        Step::Request(Fetch::CommitSha { .. })
    ));
}

#[test]
fn test_resolve_upgrade_pinned_higher_than_remote() {
    let t = UpdateTask {
        current_tag: Some("de0fac2e4500dabe0009e67214ff5f5447ce83dd".to_string()),
        comment: Some("# v6.0.2".to_string()),
        ..task("actions/checkout", None, "uses")
    };
    let replies = vec![Fetched::Release("v4".into())];
    assert!(matches!(upgrade_step(&t, UpgradeStrategy::Latest, true, &replies), Step::Done(None)));
}

#[test]
fn upgrade_within_major_and_minor() {
    let t = task("o/r", Some("v1.2.0"), "uses");
    let tags = vec![
        "v2.0.0".to_string(),
        "v1.3.0".to_string(),
        "v1.2.5".to_string(),
        "v1.10.0".to_string(),
        "junk".to_string(),
    ];
    let replies = vec![Fetched::Tags(tags.clone())];
    assert!(matches!(upgrade_step(&t, UpgradeStrategy::Major, true, &vec![]), Step::Request(Fetch::Tags)));
    match upgrade_step(&t, UpgradeStrategy::Major, true, &replies) {
        Step::Request(Fetch::CommitSha { reference }) => assert_eq!(reference, "v1.10.0"),
        other => panic!("unexpected {:?}", other),
    }
    match upgrade_step(&t, UpgradeStrategy::Minor, true, &replies) {
        Step::Request(Fetch::CommitSha { reference }) => assert_eq!(reference, "v1.2.5"),
        other => panic!("unexpected {:?}", other),
    }
    let top = task("o/r", Some("v1.10.0"), "uses");
    assert!(matches!(upgrade_step(&top, UpgradeStrategy::Major, true, &replies), Step::Done(None)));
}

#[test]
fn upgrade_commit_and_orbs_and_images() {
    let t = task("o/r", Some("v1"), "uses");
    assert!(matches!(upgrade_step(&t, UpgradeStrategy::Commit, true, &vec![]), Step::Request(Fetch::DefaultBranch)));
    let replies = vec![Fetched::Branch("main".into())];
    match upgrade_step(&t, UpgradeStrategy::Commit, true, &replies) {
        Step::Request(Fetch::CommitSha { reference }) => assert_eq!(reference, "main"),
        other => panic!("unexpected {:?}", other),
    }
    let orb = task("circleci/node", Some("5.0.0"), "orbs");
    let replies = vec![Fetched::Release("5.1.0".into())];
    match upgrade_step(&orb, UpgradeStrategy::Latest, true, &replies) {
        Step::Done(Some((r, tag))) => {
            assert_eq!(r, DependencyRef::Version("5.1.0".into()));
            assert_eq!(tag, None);
        }
        other => panic!("unexpected {:?}", other),
    }
    let image = task("redis", None, "image");
    match upgrade_step(&image, UpgradeStrategy::Latest, true, &vec![]) {
        Step::Request(Fetch::Digest { image, tag }) => {
            assert_eq!(image, "redis");
            assert_eq!(tag, "latest");
        }
        other => panic!("unexpected {:?}", other),
    }
    let resolver = Resolver::new(UpgradeStrategy::Commit, 4);
    assert!(matches!(resolver.resolve_step(&t, false, &vec![]), Step::Request(Fetch::DefaultBranch)));
    assert!(matches!(resolver.resolve_step(&t, true, &vec![]), Step::Request(Fetch::CommitSha { .. })));
    assert!(matches!(resolver.candidate_step(&orb, &vec![]), Step::Request(Fetch::LatestRelease)));
}

#[test]
fn grouping_and_results() {
    let tasks = vec![
        task("a/b", Some("v1"), "uses"),
        task("c/d", Some("v1"), "uses"),
        task("a/b", Some("v1"), "uses"),
        task("a/b", Some("v2"), "uses"),
    ];
    let groups = group_tasks(tasks);
    assert_eq!(groups.len(), 3);
    assert_eq!(groups[0].len(), 2);
    assert_eq!(groups[1][0].action.0, "c/d");
    assert_eq!(groups[2][0].current_tag.as_deref(), Some("v2"));
    let results = results_for(groups[0].clone(), &DependencyRef::GitSha("s".into()), &Some("v1".into()));
    assert_eq!(results.len(), 2);
    assert_eq!(results[1].old_tag.as_deref(), Some("v1"));
    assert_eq!(results[1].new_sha, DependencyRef::GitSha("s".into()));
}

#[test]
fn combining_outcomes() {
    let one = results_for(vec![task("a/b", Some("v1"), "uses")], &DependencyRef::GitSha("s".into()), &None);
    let ok = combine_outcomes(vec![
        Ok(Some(one.clone())),
        Ok(None),
        Err(PinnerError::Api("404".into())),
        Ok(Some(one.clone())),
    ])
    .unwrap();
    assert_eq!(ok.len(), 2);
    let err = combine_outcomes(vec![
        Ok(Some(one)),
        Err(PinnerError::Api("404".into())),
        Err(PinnerError::RateLimit("slow".into())),
    ])
    .unwrap_err();
    assert_eq!(err, PinnerError::RateLimit("slow".into()));
}
