use pinner::domain::{
    BranchName, CompromisedDependency, DependencyName, DependencyRef, NonVettedDependency,
    UnpinnedDependency, UpdateTask, VerificationResult,
};
use pinner::error::PinnerError;

#[test]
fn test_verification_result_success() {
    let res = VerificationResult::default();
    assert!(res.is_success());
}

#[test]
fn test_verification_result_failure() {
    let mut res = VerificationResult::default();
    res.unpinned.push(UnpinnedDependency {
        path: "f.yml".to_string(),
        action: "a/b".into(),
        tag: Some("v1".into()),
        line: 1,
        column: 1,
    });
    assert!(!res.is_success());
}

#[test]
fn test_verification_result_compromised() {
    let mut res = VerificationResult::default();
    res.compromised.push(CompromisedDependency {
        path: "f.yml".to_string(),
        action: "a/b".into(),
        hash: "compromised_hash".to_string(),
        line: 1,
        column: 1,
    });
    assert!(!res.is_success());
}

#[test]
fn test_verification_result_non_vetted() {
    let mut res = VerificationResult::default();
    res.non_vetted.push(NonVettedDependency {
        path: "f.yml".to_string(),
        action: "a/b".into(),
        tag: Some("some_hash".to_string()),
        line: 1,
        column: 1,
    });
    assert!(!res.is_success());
}

#[test]
fn test_logical_tag() {
    // Tag is a normal version
    let task = UpdateTask {
        current_tag: Some("v3.1.2".to_string()),
        comment: None,
        ..Default::default()
    };
    assert_eq!(task.logical_tag(), Some("v3.1.2".to_string()));

    // Tag is a SHA but no comment
    let task = UpdateTask {
        current_tag: Some("de0fac2e4500dabe0009e67214ff5f5447ce83dd".to_string()),
        comment: None,
        ..Default::default()
    };
    assert_eq!(
        task.logical_tag(),
        Some("de0fac2e4500dabe0009e67214ff5f5447ce83dd".to_string())
    );

    // Tag is a SHA with a version comment
    let task = UpdateTask {
        current_tag: Some("de0fac2e4500dabe0009e67214ff5f5447ce83dd".to_string()),
        comment: Some("# v6.0.2".to_string()),
        ..Default::default()
    };
    assert_eq!(task.logical_tag(), Some("v6.0.2".to_string()));

    // Tag is a SHA with a version comment and other suffix
    let task = UpdateTask {
        current_tag: Some("de0fac2e4500dabe0009e67214ff5f5447ce83dd".to_string()),
        comment: Some("# v6.0.2 # keep me".to_string()),
        ..Default::default()
    };
    assert_eq!(task.logical_tag(), Some("v6.0.2".to_string()));
}

#[test]
fn logical_tag_without_tag_is_none() {
    let task = UpdateTask::default();
    assert_eq!(task.logical_tag(), None);
}

#[test]
fn provider_test_action_name_display_and_from() {
    let name = DependencyName::from("actions/checkout");
    assert_eq!(name.to_string(), "actions/checkout");
    assert_eq!(
        DependencyName::from("a".to_string()),
        DependencyName("a".into())
    );
    assert_eq!(DependencyName::from(""), DependencyName("".into()));
    assert_eq!(
        DependencyName::from("".to_string()),
        DependencyName("".into())
    );
}

#[test]
fn provider_test_commit_sha_display_and_from() {
    let sha = DependencyRef::from("a1b2c3d".to_string());
    assert_eq!(sha.to_string(), "a1b2c3d");
}

#[test]
fn provider_test_branch_name_display_and_from() {
    let branch = BranchName::from("main".to_string());
    assert_eq!(branch.to_string(), "main");
}

#[test]
fn dependency_ref_kinds() {
    assert!(matches!(
        DependencyRef::from("sha256:abc".to_string()),
        DependencyRef::DockerDigest(_)
    ));
    assert!(matches!(
        DependencyRef::from("de0fac2e4500dabe0009e67214ff5f5447ce83dd".to_string()),
        DependencyRef::GitSha(_)
    ));
    assert!(matches!(
        DependencyRef::from("v1.2.3".to_string()),
        DependencyRef::GitSha(_)
    ));
}

#[test]
fn docker_names() {
    let name = DependencyName::from("docker://alpine");
    assert!(name.is_docker());
    assert_eq!(name.trim_docker_prefix(), "alpine");
    let plain = DependencyName::from("alpine");
    assert!(!plain.is_docker());
    assert_eq!(plain.trim_docker_prefix(), "alpine");
}

#[test]
fn test_error_display() {
    let err = PinnerError::Api("failed".to_string());
    assert_eq!(err.to_string(), "API error: failed");
    assert!(!err.is_path_not_found());
    assert!(!err.is_fatal());

    let err = PinnerError::Parse("yaml".to_string());
    assert_eq!(err.to_string(), "Parse error: yaml");
    assert!(err.is_fatal());

    let err = PinnerError::PathNotFound("path/to/wf".to_string());
    assert_eq!(err.to_string(), "Path not found: path/to/wf");
    assert!(err.is_path_not_found());

    let err = PinnerError::Config("invalid".to_string());
    assert_eq!(err.to_string(), "Config error: invalid");

    let err = PinnerError::VerificationFailed("unpinned".to_string());
    assert_eq!(err.to_string(), "Verification failed: unpinned");

    let err = PinnerError::RateLimit("slow down".to_string());
    assert_eq!(err.to_string(), "Rate limit error: slow down");
    assert!(err.is_fatal());
}
