use pinner::cli::OutputFormat;
use pinner::domain::{CiProvider, DependencyName, DependencyRef, UpdateResult, UpdateTask};
use pinner::patcher::formatter::{format_security_status, Formatter, HashSecurityStatus};
use pinner::patcher::mutator::apply_update;
use pinner::patcher::{PatchMode, Patcher};

#[test]
fn test_apply_update_basic() {
    let mut content = "uses: actions/checkout@v3".to_string();
    let res = UpdateResult {
        action: DependencyName::from("actions/checkout"),
        path: "f.yml".to_string(),
        old_tag: Some("v3".to_string()),
        task: UpdateTask {
            path: "f.yml".to_string(),
            start: 6,
            end: 25,
            action: DependencyName::from("actions/checkout"),
            current_tag: Some("v3".to_string()),
            comment: None,
            preceding_comments: None,
            key: "uses".to_string(),
            line: 1,
            column: 1,
            provider: CiProvider::GitHub,
        },
        new_sha: DependencyRef::from("hashv3".to_string()),
        new_tag: Some("v3".to_string()),
    };

    let result = apply_update(&mut content, &res).unwrap();
    assert!(result.is_some());
    assert_eq!(content, "uses: actions/checkout@hashv3 # v3");
}

#[test]
fn test_apply_update_preceding_comment() {
    let mut content = "# v1\nuses: actions/checkout@v1".to_string();
    let res = UpdateResult {
        action: DependencyName::from("actions/checkout"),
        path: "f.yml".to_string(),
        old_tag: Some("v1".to_string()),
        task: UpdateTask {
            path: "f.yml".to_string(),
            start: 11,
            end: 30,
            action: DependencyName::from("actions/checkout"),
            current_tag: Some("v1".to_string()),
            comment: None,
            preceding_comments: Some("# v1".to_string()),
            key: "uses".to_string(),
            line: 2,
            column: 7,
            provider: CiProvider::GitHub,
        },
        new_sha: DependencyRef::from("hashv2".to_string()),
        new_tag: Some("v2".to_string()),
    };

    apply_update(&mut content, &res).unwrap();
    assert_eq!(content, "# v2\nuses: actions/checkout@hashv2 # v2");
}

#[test]
fn test_apply_update_with_existing_comment() {
    let mut content = "uses: o/r@v1 # keep me".to_string();
    let res = UpdateResult {
        action: DependencyName::from("o/r"),
        path: "f.yml".to_string(),
        old_tag: Some("v1".to_string()),
        task: UpdateTask {
            path: "f.yml".to_string(),
            start: 6,
            end: 12,
            action: DependencyName::from("o/r"),
            current_tag: Some("v1".to_string()),
            comment: Some("# keep me".to_string()),
            preceding_comments: None,
            key: "uses".to_string(),
            line: 1,
            column: 1,
            provider: CiProvider::GitHub,
        },
        new_sha: DependencyRef::from("hash".to_string()),
        new_tag: Some("v2".to_string()),
    };

    apply_update(&mut content, &res).unwrap();
    assert_eq!(content, "uses: o/r@hash # v2 # keep me");
}

#[test]
fn test_apply_update_comment_regex_replacement() {
    let mut content = "uses: o/r@v1 # v1".to_string();
    let res = UpdateResult {
        action: DependencyName::from("o/r"),
        path: "f.yml".to_string(),
        old_tag: Some("v1".to_string()),
        task: UpdateTask {
            path: "f.yml".to_string(),
            start: 6,
            end: 12,
            action: DependencyName::from("o/r"),
            current_tag: Some("v1".to_string()),
            comment: Some("# v1".to_string()),
            preceding_comments: None,
            key: "uses".to_string(),
            line: 1,
            column: 1,
            provider: CiProvider::GitHub,
        },
        new_sha: DependencyRef::from("hash".to_string()),
        new_tag: Some("v2".to_string()),
    };

    apply_update(&mut content, &res).unwrap();
    assert_eq!(content, "uses: o/r@hash # v2");
}

#[test]
fn test_apply_update_no_redundant_sha_comment() {
    let mut content = "image: cimg/base@sha256:oldhash # stable".to_string();
    let res = UpdateResult {
        action: DependencyName::from("cimg/base"),
        path: "f.yml".to_string(),
        old_tag: Some("sha256:oldhash".to_string()),
        task: UpdateTask {
            path: "f.yml".to_string(),
            start: 7,
            end: 31,
            action: DependencyName::from("cimg/base"),
            current_tag: Some("sha256:oldhash".to_string()),
            comment: Some("# stable".to_string()),
            preceding_comments: None,
            key: "image".to_string(),
            line: 1,
            column: 1,
            provider: CiProvider::GitHub,
        },
        new_sha: DependencyRef::from("sha256:newhash".to_string()),
        new_tag: Some("sha256:newhash".to_string()),
    };

    apply_update(&mut content, &res).unwrap();
    // Since new_tag is a SHA, it shouldn't be added as a comment.
    assert_eq!(content, "image: cimg/base@sha256:newhash # stable");
}

#[test]
fn test_apply_update_gitlab_ref() {
    let mut content = "ref: v1".to_string();
    let res = UpdateResult {
        action: DependencyName::from("proj"),
        path: "f.yml".to_string(),
        old_tag: Some("v1".to_string()),
        task: UpdateTask {
            path: "f.yml".to_string(),
            start: 5,
            end: 7,
            action: DependencyName::from("proj"),
            current_tag: Some("v1".to_string()),
            comment: None,
            preceding_comments: None,
            key: "ref".to_string(),
            line: 1,
            column: 1,
            provider: CiProvider::GitLab,
        },
        new_sha: DependencyRef::from("hash".to_string()),
        new_tag: Some("v1".to_string()),
    };

    apply_update(&mut content, &res).unwrap();
    assert_eq!(content, "ref: hash # v1");
}

#[test]
fn test_apply_update_no_newline_at_end() {
    let mut content = "uses: o/r@v1".to_string(); // No newline
    let res = UpdateResult {
        action: "o/r".into(),
        path: "f.yml".into(),
        old_tag: Some("v1".to_string()),
        task: UpdateTask {
            path: "f.yml".into(),
            start: 6,
            end: 12,
            action: "o/r".into(),
            current_tag: Some("v1".to_string()),
            key: "uses".to_string(),
            ..Default::default()
        },
        new_sha: DependencyRef::from("hash".to_string()),
        new_tag: Some("v1".to_string()),
    };

    apply_update(&mut content, &res).unwrap();
    assert_eq!(content, "uses: o/r@hash # v1");
}

#[test]
fn test_apply_update_complex_comments() {
    let mut content = "uses: o/r@v1  # v1 # keep # me".to_string();
    let res = UpdateResult {
        action: "o/r".into(),
        path: "f.yml".into(),
        old_tag: Some("v1".to_string()),
        task: UpdateTask {
            path: "f.yml".into(),
            start: 6,
            end: 12,
            action: "o/r".into(),
            current_tag: Some("v1".to_string()),
            comment: Some("# v1 # keep # me".to_string()),
            key: "uses".to_string(),
            ..Default::default()
        },
        new_sha: DependencyRef::from("hash".to_string()),
        new_tag: Some("v2".to_string()),
    };

    apply_update(&mut content, &res).unwrap();
    assert_eq!(content, "uses: o/r@hash # v2 # keep # me");
}

#[test]
fn test_apply_update_docker_digest() {
    let mut content = "image: alpine:latest".to_string();
    let res = UpdateResult {
        action: "alpine".into(),
        path: "f.yml".into(),
        old_tag: Some("latest".to_string()),
        task: UpdateTask {
            path: "f.yml".into(),
            start: 7,
            end: 20,
            action: "alpine".into(),
            current_tag: Some("latest".to_string()),
            key: "image".to_string(),
            ..Default::default()
        },
        new_sha: DependencyRef::from("sha256:digest".to_string()),
        new_tag: Some("latest".to_string()),
    };

    apply_update(&mut content, &res).unwrap();
    assert_eq!(content, "image: alpine@sha256:digest # latest");
}

#[test]
fn apply_update_unchanged_returns_none() {
    let mut content = "uses: o/r@hash # v1".to_string();
    let res = UpdateResult {
        action: "o/r".into(),
        path: "f.yml".into(),
        old_tag: Some("v1".to_string()),
        task: UpdateTask {
            path: "f.yml".into(),
            start: 6,
            end: 14,
            action: "o/r".into(),
            current_tag: Some("hash".to_string()),
            comment: Some("# v1".to_string()),
            key: "uses".to_string(),
            ..Default::default()
        },
        new_sha: DependencyRef::from("hash".to_string()),
        new_tag: Some("v1".to_string()),
    };
    let result = apply_update(&mut content, &res).unwrap();
    assert!(result.is_none());
    assert_eq!(content, "uses: o/r@hash # v1");
}

#[test]
fn apply_update_bitbucket_pipe_uses_colon() {
    let mut content = "pipe: atlassian/slack:1.0\nnext: x".to_string();
    let res = UpdateResult {
        action: "atlassian/slack".into(),
        path: "f.yml".into(),
        old_tag: Some("1.0".to_string()),
        task: UpdateTask {
            path: "f.yml".into(),
            start: 6,
            end: 25,
            action: "atlassian/slack".into(),
            current_tag: Some("1.0".to_string()),
            key: "pipe".to_string(),
            ..Default::default()
        },
        new_sha: DependencyRef::from("sha256:abc".to_string()),
        new_tag: Some("1.1".to_string()),
    };
    let result = apply_update(&mut content, &res).unwrap();
    assert_eq!(
        result,
        Some((
            "atlassian/slack:1.0".to_string(),
            "atlassian/slack:sha256:abc # 1.1".to_string()
        ))
    );
    assert_eq!(content, "pipe: atlassian/slack:sha256:abc # 1.1\nnext: x");
}

fn result_for(path: &str, start: usize, end: usize, action: &str, tag: &str, sha: &str) -> UpdateResult {
    UpdateResult {
        task: UpdateTask {
            path: path.to_string(),
            start,
            end,
            action: action.into(),
            current_tag: Some(tag.to_string()),
            key: "uses".to_string(),
            ..Default::default()
        },
        action: action.into(),
        path: path.to_string(),
        old_tag: Some(tag.to_string()),
        new_sha: DependencyRef::GitSha(sha.to_string()),
        new_tag: Some(tag.to_string()),
    }
}

#[test]
fn test_calculate_patches() {
    let formatter = Formatter::new(OutputFormat::Text, false, vec![], vec![], true);
    let patcher = Patcher::new(formatter, false);

    let path = "ci.yml".to_string();
    let content = "uses: actions/checkout@v3".to_string();
    let file_contents = vec![(path.clone(), content.clone())];

    let task = UpdateTask {
        path: path.clone(),
        start: 6,
        end: 25,
        line: 1,
        column: 7,
        action: "actions/checkout".into(),
        current_tag: Some("v3".to_string()),
        comment: None,
        preceding_comments: None,
        key: "uses".to_string(),
        provider: CiProvider::GitHub,
    };

    let result = UpdateResult {
        task,
        action: "actions/checkout".into(),
        path: path.clone(),
        old_tag: Some("v3".to_string()),
        new_sha: DependencyRef::GitSha("hashv3".to_string()),
        new_tag: Some("v3".to_string()),
    };

    let patches = patcher
        .calculate_patches(vec![result], &file_contents)
        .unwrap();
    assert_eq!(patches.len(), 1);
    assert_eq!(patches[0].path, path);
    assert!(patches[0]
        .new_content
        .contains("actions/checkout@hashv3 # v3"));
}

#[test]
fn test_calculate_patches_multiple_updates() {
    let formatter = Formatter::new(OutputFormat::Text, false, vec![], vec![], true);
    let patcher = Patcher::new(formatter, false);

    let path = "ci.yml".to_string();
    // Two dependencies on two lines
    let content = "uses: a/b@v1\nuses: c/d@v2".to_string();
    let file_contents = vec![(path.clone(), content.clone())];

    let res1 = result_for("ci.yml", 6, 12, "a/b", "v1", "sha1");
    let res2 = result_for("ci.yml", 19, 25, "c/d", "v2", "sha2");

    let patches = patcher
        .calculate_patches(vec![res1, res2], &file_contents)
        .unwrap();
    assert_eq!(patches.len(), 1);
    assert!(patches[0].new_content.contains("a/b@sha1 # v1"));
    assert!(patches[0].new_content.contains("c/d@sha2 # v2"));
}

#[test]
fn calculate_patches_orders_by_offset_and_groups_files() {
    let patcher = Patcher::new(
        Formatter::new(OutputFormat::Text, false, vec![], vec![], true),
        true,
    );
    let file_contents = vec![
        ("a.yml".to_string(), "uses: a/b@v1\nuses: c/d@v2".to_string()),
        ("b.yml".to_string(), "uses: e/f@v3".to_string()),
    ];
    // Given in increasing order; the patcher applies the later one first.
    let results = vec![
        result_for("a.yml", 6, 12, "a/b", "v1", "sha1"),
        result_for("b.yml", 6, 12, "e/f", "v3", "sha3"),
        result_for("a.yml", 19, 25, "c/d", "v2", "sha2"),
    ];
    let patches = patcher.calculate_patches(results, &file_contents).unwrap();
    assert_eq!(patches.len(), 2);
    assert_eq!(patches[0].path, "a.yml");
    assert_eq!(patches[0].original_content, "uses: a/b@v1\nuses: c/d@v2");
    assert_eq!(patches[0].new_content, "uses: a/b@sha1 # v1\nuses: c/d@sha2 # v2");
    assert_eq!(patches[0].changes.len(), 2);
    assert_eq!(patches[0].results[0].task.start, 19);
    assert_eq!(patches[0].results[1].task.start, 6);
    assert_eq!(patches[1].path, "b.yml");
    assert_eq!(patches[1].new_content, "uses: e/f@sha3 # v3");
}

#[test]
fn calculate_patches_missing_content_is_an_error() {
    let patcher = Patcher::new(
        Formatter::new(OutputFormat::Text, false, vec![], vec![], true),
        false,
    );
    let results = vec![result_for("gone.yml", 6, 12, "a/b", "v1", "sha1")];
    let err = patcher.calculate_patches(results, &vec![]).err().unwrap();
    assert_eq!(err.to_string(), "IO error: Content for file gone.yml not found");
    assert!(matches!(err, pinner::error::PinnerError::Io(pinner::error::IoKind::NotFound, _)));
}

#[test]
fn calculate_patches_skips_unchanged_files() {
    let patcher = Patcher::new(
        Formatter::new(OutputFormat::Text, false, vec![], vec![], true),
        false,
    );
    let file_contents = vec![("a.yml".to_string(), "uses: a/b@sha1 # v1".to_string())];
    let results = vec![result_for("a.yml", 6, 14, "a/b", "v1", "sha1")];
    let patches = patcher.calculate_patches(results, &file_contents).unwrap();
    assert!(patches.is_empty());
}

#[test]
fn test_check_hash_security() {
    let formatter = Formatter::new(
        OutputFormat::Text,
        false,
        vec![
            "vetted_hash".to_string(),
            "actions/checkout@vetted_ref_hash".to_string(),
        ],
        vec![
            "comp_hash".to_string(),
            "actions/checkout@comp_ref_hash".to_string(),
        ],
        true,
    );

    assert_eq!(
        formatter.check_hash_security("actions/checkout", "vetted_hash"),
        HashSecurityStatus::Vetted
    );
    assert_eq!(
        formatter.check_hash_security("actions/checkout", "vetted_ref_hash"),
        HashSecurityStatus::Vetted
    );
    assert_eq!(
        formatter.check_hash_security("actions/checkout", "comp_hash"),
        HashSecurityStatus::Compromised
    );
    assert_eq!(
        formatter.check_hash_security("actions/checkout", "comp_ref_hash"),
        HashSecurityStatus::Compromised
    );
    assert_eq!(
        formatter.check_hash_security("actions/checkout", "other_hash"),
        HashSecurityStatus::NotChecked
    );
}

#[test]
fn check_hash_security_docker_spellings_and_precedence() {
    let formatter = Formatter::new(
        OutputFormat::Text,
        false,
        vec!["docker://alpine@sha256:1".to_string(), "both".to_string()],
        vec!["redis@sha256:2".to_string(), "both".to_string()],
        true,
    );
    assert_eq!(
        formatter.check_hash_security("alpine", "sha256:1"),
        HashSecurityStatus::Vetted
    );
    assert_eq!(
        formatter.check_hash_security("docker://redis", "sha256:2"),
        HashSecurityStatus::Compromised
    );
    assert_eq!(
        formatter.check_hash_security("docker://docker://redis", "sha256:2"),
        HashSecurityStatus::Compromised
    );
    // An entry in both lists is compromised.
    assert_eq!(
        formatter.check_hash_security("x", "both"),
        HashSecurityStatus::Compromised
    );
}

#[test]
fn security_status_labels() {
    assert_eq!(format_security_status(HashSecurityStatus::Vetted, false), "");
    assert!(format_security_status(HashSecurityStatus::Vetted, true).contains("[✓ vetted]"));
    assert!(format_security_status(HashSecurityStatus::Compromised, true).contains("[✗ compromised]"));
    assert!(format_security_status(HashSecurityStatus::NotChecked, true).contains("[? not checked]"));
}

#[test]
fn patch_mode_follows_console_and_dry_run() {
    let mode = |format: OutputFormat, quiet: bool, dry_run: bool| {
        Patcher::new(Formatter::new(format, quiet, vec![], vec![], true), dry_run).patch_mode()
    };
    assert_eq!(mode(OutputFormat::Text, false, true), PatchMode::Preview);
    assert_eq!(mode(OutputFormat::Text, false, false), PatchMode::Confirm);
    assert_eq!(mode(OutputFormat::Text, true, false), PatchMode::Write);
    assert_eq!(mode(OutputFormat::Json, false, false), PatchMode::Write);
    assert_eq!(mode(OutputFormat::Json, false, true), PatchMode::Record);
}

#[test]
fn patches_do_not_depend_on_the_order_of_updates() {
    let patcher = Patcher::new(Formatter::new(OutputFormat::Json, false, vec![], vec![], true), false);
    let content = "uses: a/b@v1\nuses: c/d@v2\n".to_string();
    let files = vec![("f.yml".to_string(), content)];
    let one = result_for("f.yml", 6, 12, "a/b", "v1", "sha1");
    let two = result_for("f.yml", 19, 25, "c/d", "v2", "sha2");
    let forward = patcher.calculate_patches(vec![one.clone(), two.clone()], &files).unwrap();
    let backward = patcher.calculate_patches(vec![two, one], &files).unwrap();
    assert_eq!(forward.len(), 1);
    assert_eq!(backward.len(), 1);
    assert_eq!(forward[0].new_content, backward[0].new_content);
}

#[test]
fn security_status_shows_its_label_alone() {
    let labels = [" [✓ vetted]", " [✗ compromised]", " [? not checked]"];
    let statuses = [HashSecurityStatus::Vetted, HashSecurityStatus::Compromised, HashSecurityStatus::NotChecked];
    for (i, st) in statuses.iter().enumerate() {
        let text = format_security_status(*st, true);
        for (j, l) in labels.iter().enumerate() {
            assert_eq!(text.contains(l), i == j);
        }
    }
    assert_eq!(format_security_status(HashSecurityStatus::Vetted, false), "");
}
