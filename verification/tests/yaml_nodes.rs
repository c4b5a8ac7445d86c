use pinner::yaml::{find_uses_nodes, unquote, CiProvider};

#[test]
fn yaml_test_unquote_exhaustive() {
    assert_eq!(unquote("'v1'"), "v1");
    assert_eq!(unquote("\"v2\""), "v2");
    assert_eq!(unquote("v3"), "v3");
    assert_eq!(unquote("'"), "'");
    assert_eq!(unquote("\""), "\"");
    assert_eq!(unquote("''"), "");
    assert_eq!(unquote("  'v4'  "), "v4");
}

#[test]
fn yaml_test_ci_provider_from_path() {
    assert_eq!(
        CiProvider::from_path(".github/workflows/ci.yml"),
        CiProvider::GitHub
    );
    assert_eq!(
        CiProvider::from_path(".gitea/workflows/deploy.yaml"),
        CiProvider::GitHub
    );
    assert_eq!(
        CiProvider::from_path(".gitlab-ci.yml"),
        CiProvider::GitLab
    );
    assert_eq!(
        CiProvider::from_path("bitbucket-pipelines.yml"),
        CiProvider::Bitbucket
    );
    assert_eq!(
        CiProvider::from_path(".circleci/config.yml"),
        CiProvider::CircleCI
    );
    assert_eq!(
        CiProvider::from_path("docker-compose.yml"),
        CiProvider::Unknown
    );
}

#[test]
fn yaml_test_ci_provider_supports_key() {
    let github = CiProvider::GitHub;
    assert!(github.supports_key("uses"));
    assert!(github.supports_key("image"));
    assert!(!github.supports_key("pipe"));

    let gitlab = CiProvider::GitLab;
    assert!(gitlab.supports_key("include"));
    assert!(gitlab.supports_key("ref"));
    assert!(!gitlab.supports_key("uses"));

    let bitbucket = CiProvider::Bitbucket;
    assert!(bitbucket.supports_key("pipe"));
    assert!(bitbucket.supports_key("image"));
    assert!(!bitbucket.supports_key("orbs"));

    let circle = CiProvider::CircleCI;
    assert!(circle.supports_key("orbs"));
    assert!(circle.supports_key("image"));
    assert!(!circle.supports_key("include"));

    let unknown = CiProvider::Unknown;
    assert!(unknown.supports_key("any_key"));
}

#[test]
fn test_find_uses_nodes() {
    let yaml = "uses: actions/checkout@v3";
    let results = find_uses_nodes(yaml, CiProvider::GitHub).unwrap();

    assert_eq!(results.len(), 1);
    assert_eq!(results[0].value, "actions/checkout@v3");
    assert_eq!(results[0].key, "uses");
}

#[test]
fn test_find_uses_with_quotes() {
    let yaml = "uses: \"actions/checkout@v3\"";
    let results = find_uses_nodes(yaml, CiProvider::GitHub).unwrap();

    assert_eq!(results.len(), 1);
    assert_eq!(results[0].value, "actions/checkout@v3");
}

#[test]
fn test_find_uses_with_comment() {
    let yaml = "uses: actions/checkout@hash # v3";
    let results = find_uses_nodes(yaml, CiProvider::GitHub).unwrap();

    assert_eq!(results.len(), 1);
    assert_eq!(results[0].value, "actions/checkout@hash");
    assert_eq!(results[0].comment, Some("# v3".to_string()));
}

#[test]
fn yaml_test_find_other_keys() {
    let yaml = r#"
image: alpine:latest
pipe: sonarsource/sonarcloud-scan:1.4.0
include: other-template.yml
orbs:
  node: circleci/node@5.0.0
"#;
    let results = find_uses_nodes(yaml, CiProvider::Unknown).unwrap();

    let keys: Vec<String> = results.iter().map(|r| r.key.clone()).collect();
    assert!(keys.contains(&"image".to_string()));
    assert!(keys.contains(&"pipe".to_string()));
    assert!(keys.contains(&"include".to_string()));
    assert!(keys.contains(&"orbs".to_string()));
}

#[test]
fn yaml_test_gitlab_ref_project() {
    let yaml = r#"
include:
  - project: 'my-group/my-project'
    ref: 'v1.0.0'
    file: '/templates/.gitlab-ci.yml'
"#;
    let results = find_uses_nodes(yaml, CiProvider::GitLab).unwrap();

    let ref_node = results.iter().find(|r| r.key == "ref").unwrap();
    assert_eq!(ref_node.value, "my-group/my-project@v1.0.0");
}

#[test]
fn yaml_test_github_ignore_include() {
    let yaml = r#"
strategy:
  matrix:
    include:
      - os: ubuntu-latest
"#;
    let results = find_uses_nodes(yaml, CiProvider::GitHub).unwrap();

    assert!(results.is_empty());
}

#[test]
fn test_comment_on_different_line() {
    let yaml = r#"
uses: actions/checkout@v3
# unrelated comment
"#;
    let results = find_uses_nodes(yaml, CiProvider::GitHub).unwrap();

    assert_eq!(results.len(), 1);
    assert_eq!(results[0].comment, None);
}

#[test]
fn find_uses_nodes_reports_byte_ranges() {
    let yaml = "uses: actions/checkout@v3";
    let results = find_uses_nodes(yaml, CiProvider::GitHub).unwrap();
    assert_eq!(results[0].start, 6);
    assert_eq!(results[0].end, 25);
}
