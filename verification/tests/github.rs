use pinner::github::{ActionName, BranchName, CommitSha};

#[test]
fn mod_test_action_name_display_and_from() {
    let name = ActionName::from("actions/checkout");
    assert_eq!(name.to_string(), "actions/checkout");
    assert_eq!(ActionName::from("a".to_string()), ActionName("a".into()));
}

#[test]
fn mod_test_commit_sha_display_and_from() {
    let sha = CommitSha::from("a1b2c3d".to_string());
    assert_eq!(sha.to_string(), "a1b2c3d");
}

#[test]
fn mod_test_branch_name_display_and_from() {
    let branch = BranchName::from("main".to_string());
    assert_eq!(branch.to_string(), "main");
}
