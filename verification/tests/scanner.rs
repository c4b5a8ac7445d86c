use pinner::domain::CiProvider;
use pinner::scanner::parser::{collect_preceding_comments, unquote};
use pinner::scanner::syntax::lines_of;
use pinner::scanner::tasks::find_tasks;

#[test]
fn test_find_tasks_github() {
    let yaml = "uses: actions/checkout@v3";
    let path = ".github/workflows/ci.yml";
    let results = find_tasks(path, yaml, &vec![]).unwrap();

    assert_eq!(results.len(), 1);
    assert_eq!(results[0].action.0, "actions/checkout");
    assert_eq!(results[0].current_tag.as_deref(), Some("v3"));
    assert_eq!(results[0].key, "uses");
}

#[test]
fn test_find_tasks_with_quotes() {
    let yaml = "uses: \"actions/checkout@v3\"";
    let path = ".github/workflows/ci.yml";
    let results = find_tasks(path, yaml, &vec![]).unwrap();

    assert_eq!(results.len(), 1);
    assert_eq!(results[0].action.0, "actions/checkout");
    assert_eq!(results[0].current_tag.as_deref(), Some("v3"));
}

#[test]
fn test_find_tasks_with_comment() {
    let yaml = "uses: actions/checkout@hash # v3";
    let path = ".github/workflows/ci.yml";
    let results = find_tasks(path, yaml, &vec![]).unwrap();

    assert_eq!(results.len(), 1);
    assert_eq!(results[0].action.0, "actions/checkout");
    assert_eq!(results[0].current_tag.as_deref(), Some("hash"));
    assert_eq!(results[0].comment, Some("# v3".to_string()));
}

#[test]
fn test_find_tasks_circleci_orbs() {
    let yaml = r#"
version: 2.1
orbs:
  node: circleci/node@5.0.0
  slack: circleci/slack@4.1.0
"#;
    let path = ".circleci/config.yml";
    let results = find_tasks(path, yaml, &vec![]).unwrap();

    assert_eq!(results.len(), 2);

    let node_orb = results
        .iter()
        .find(|r| r.action.0 == "circleci/node")
        .unwrap();
    assert_eq!(node_orb.key, "orbs");
    assert_eq!(node_orb.current_tag.as_deref(), Some("5.0.0"));

    let slack_orb = results
        .iter()
        .find(|r| r.action.0 == "circleci/slack")
        .unwrap();
    assert_eq!(slack_orb.key, "orbs");
    assert_eq!(slack_orb.current_tag.as_deref(), Some("4.1.0"));
}

#[test]
fn parser_test_find_other_keys() {
    let yaml = r#"
image: alpine:latest
pipe: sonarsource/sonarcloud-scan:1.4.0
include: other-template.yml
orbs:
  node: circleci/node@5.0.0
"#;
    let path = "other.yml";
    let results = find_tasks(path, yaml, &vec![]).unwrap();

    let keys: Vec<String> = results.iter().map(|r| r.key.clone()).collect();
    assert!(keys.contains(&"image".to_string()));
    assert!(keys.contains(&"pipe".to_string()));
}

#[test]
fn parser_test_gitlab_ref_project() {
    let yaml = r#"
include:
  - project: 'my-group/my-project'
    ref: 'v1.0.0'
    file: '/templates/.gitlab-ci.yml'
"#;
    let path = ".gitlab-ci.yml";
    let results = find_tasks(path, yaml, &vec![]).unwrap();

    let ref_node = results.iter().find(|r| r.key == "ref").unwrap();
    assert_eq!(ref_node.action.0, "my-group/my-project");
    assert_eq!(ref_node.current_tag.as_deref(), Some("v1.0.0"));
}

#[test]
fn parser_test_github_ignore_include() {
    let yaml = r#"
strategy:
  matrix:
    include:
      - os: ubuntu-latest
"#;
    let path = ".github/workflows/ci.yml";
    let results = find_tasks(path, yaml, &vec![]).unwrap();

    assert!(results.is_empty());
}

#[test]
fn parser_test_unquote_exhaustive() {
    assert_eq!(unquote("'v1'"), "v1");
    assert_eq!(unquote("\"v2\""), "v2");
    assert_eq!(unquote("v3"), "v3");
    assert_eq!(unquote("'"), "'");
    assert_eq!(unquote("\""), "\"");
    assert_eq!(unquote("''"), "");
    assert_eq!(unquote("  'v4'  "), "v4");
}

#[test]
fn parser_test_ci_provider_from_path() {
    assert_eq!(
        CiProvider::from_path(".github/workflows/ci.yml"),
        CiProvider::GitHub
    );
    assert_eq!(
        CiProvider::from_path(".gitlab-ci.yml"),
        CiProvider::GitLab
    );
    assert_eq!(
        CiProvider::from_path("bitbucket-pipelines.yml"),
        CiProvider::Bitbucket
    );
    assert_eq!(
        CiProvider::from_path(".circleci/config.yml"),
        CiProvider::CircleCI
    );
}

#[test]
fn parser_test_ci_provider_supports_key() {
    let github = CiProvider::GitHub;
    assert!(github.supports_key("uses"));
    assert!(github.supports_key("image"));
    assert!(!github.supports_key("pipe"));

    let gitlab = CiProvider::GitLab;
    assert!(gitlab.supports_key("include"));
    assert!(gitlab.supports_key("ref"));
    assert!(!gitlab.supports_key("uses"));
}

#[test]
fn test_find_tasks_azure_devops() {
    let yaml = r#"
steps:
- task: NodeTool@0
  inputs:
    versionSpec: '16.x'
- template: templates/build.yml@templates-repo
  parameters:
    buildConfig: 'Release'
"#;
    let path = "azure-pipelines.yml";
    let results = find_tasks(path, yaml, &vec![]).unwrap();

    assert_eq!(results.len(), 2);

    let task = results.iter().find(|r| r.key == "task").unwrap();
    assert_eq!(task.action.0, "NodeTool");
    assert_eq!(task.current_tag.as_deref(), Some("0"));

    let template = results.iter().find(|r| r.key == "template").unwrap();
    assert_eq!(template.action.0, "templates/build.yml");
    assert_eq!(template.current_tag.as_deref(), Some("templates-repo"));
}

#[test]
fn test_find_tasks_aws_codebuild() {
    let yaml = r#"
version: 0.2
phases:
  install:
    runtime-versions:
      nodejs: 16
build:
  commands:
    - echo "Building..."
image: aws/codebuild/standard:5.0
"#;
    let path = "buildspec.yml";
    let results = find_tasks(path, yaml, &vec![]).unwrap();

    assert_eq!(results.len(), 1);
    assert_eq!(results[0].action.0, "aws/codebuild/standard");
    assert_eq!(results[0].current_tag.as_deref(), Some("5.0"));
}

#[test]
fn test_find_tasks_multi_document() {
    let yaml = r#"
uses: actions/checkout@v1
---
uses: actions/setup-node@v2
"#;
    let path = ".github/workflows/ci.yml";
    let results = find_tasks(path, yaml, &vec![]).unwrap();

    assert_eq!(results.len(), 2);
    assert_eq!(results[0].action.0, "actions/checkout");
    assert_eq!(results[1].action.0, "actions/setup-node");
}

#[test]
fn test_find_tasks_malformed_yaml() {
    // Tree-sitter is resilient and should still find the dependency in partial/broken YAML
    let yaml = r#"
jobs:
  build:
    steps:
      - uses: actions/checkout@v3
    invalid_yaml_here: [
"#;
    let path = ".github/workflows/ci.yml";
    let results = find_tasks(path, yaml, &vec![]).unwrap();

    assert_eq!(results.len(), 1);
    assert_eq!(results[0].action.0, "actions/checkout");
}

#[test]
fn test_find_tasks_empty_yaml() {
    let yaml = "";
    let path = ".github/workflows/ci.yml";
    let results = find_tasks(path, yaml, &vec![]).unwrap();

    assert!(results.is_empty());
}

#[test]
fn test_find_tasks_complex_nesting() {
    let yaml = r#"
jobs:
  build:
    steps:
      - name: Checkout
        uses: actions/checkout@v3
      - name: Nested
        run: |
          echo "hello"
        env:
          IMAGE: "not-a-dependency"
      - image: redis:6.0 # This is a dependency
"#;
    let path = ".github/workflows/ci.yml";
    let results = find_tasks(path, yaml, &vec![]).unwrap();

    assert_eq!(results.len(), 2);
    assert!(results.iter().any(|r| r.action.0 == "actions/checkout"));
    assert!(results.iter().any(|r| r.action.0 == "redis"));
}

#[test]
fn test_create_task_with_ports() {
    let yaml = r#"
- image: localhost:5000/my-image:v1.0.0
- image: localhost:5000/my-image
- image: docker://localhost:5000/my-image:v2.0.0
- image: docker://localhost:5000/my-image
"#;
    let path = "bitbucket-pipelines.yml";
    let results = find_tasks(path, yaml, &vec![]).unwrap();

    assert_eq!(results.len(), 4);

    assert_eq!(results[0].action.0, "localhost:5000/my-image");
    assert_eq!(results[0].current_tag.as_deref(), Some("v1.0.0"));

    assert_eq!(results[1].action.0, "localhost:5000/my-image");
    assert_eq!(results[1].current_tag.as_deref(), None);

    assert_eq!(results[2].action.0, "docker://localhost:5000/my-image");
    assert_eq!(results[2].current_tag.as_deref(), Some("v2.0.0"));

    assert_eq!(results[3].action.0, "docker://localhost:5000/my-image");
    assert_eq!(results[3].current_tag.as_deref(), None);
}

#[test]
fn test_find_tasks_ignore_list_glob() {
    let yaml = r#"
- uses: actions/checkout@v3
- uses: actions/setup-node@v2
- uses: docker://gcr.io/internal/my-image@sha256:abc
- uses: docker://gcr.io/external/other-image@sha256:123
- uses: normal/action@v1
"#;
    let path = ".github/workflows/ci.yml";

    // Ignore patterns:
    // 1. "actions/*" -> Matches actions/checkout and actions/setup-node
    // 2. "*internal/*" -> Matches docker://gcr.io/internal/my-image
    // 3. "normal/action" -> Matches normal/action (exact substring)
    let ignore_list = vec![
        "actions/*".to_string(),
        "*internal/*".to_string(),
        "normal/action".to_string(),
    ];

    let results = find_tasks(path, yaml, &ignore_list).unwrap();

    // Only docker://gcr.io/external/other-image should remain!
    assert_eq!(results.len(), 1);
    assert_eq!(results[0].action.0, "docker://gcr.io/external/other-image");
}

#[test]
fn test_ci_provider_from_path_tekton_k8s() {
    assert_eq!(
        CiProvider::from_path("tekton/task.yaml"),
        CiProvider::Tekton
    );
    assert_eq!(
        CiProvider::from_path("k8s/deployment.yaml"),
        CiProvider::Kubernetes
    );
    assert_eq!(
        CiProvider::from_path("pod.yaml"),
        CiProvider::Kubernetes
    );
}

#[test]
fn test_find_tasks_tekton_bundle() {
    let yaml = r#"
apiVersion: tekton.dev/v1beta1
kind: Task
metadata:
  name: git-clone
spec:
  taskRef:
    name: git-clone
    bundle: gcr.io/tekton-releases/catalog/git-clone:0.1
"#;
    let path = "tekton/git-clone.yaml";
    let results = find_tasks(path, yaml, &vec![]).unwrap();

    assert_eq!(results.len(), 1);
    assert_eq!(
        results[0].action.0,
        "gcr.io/tekton-releases/catalog/git-clone"
    );
    assert_eq!(results[0].current_tag.as_deref(), Some("0.1"));
    assert_eq!(results[0].key, "bundle");
}

#[test]
fn test_find_tasks_kubernetes_image() {
    let yaml = r#"
apiVersion: v1
kind: Pod
metadata:
  name: web
spec:
  containers:
  - name: web
    image: nginx:1.21.0
"#;
    let path = "pod.yaml";
    let results = find_tasks(path, yaml, &vec![]).unwrap();

    assert_eq!(results.len(), 1);
    assert_eq!(results[0].action.0, "nginx");
    assert_eq!(results[0].current_tag.as_deref(), Some("1.21.0"));
    assert_eq!(results[0].key, "image");
}

#[test]
fn test_find_tasks_preceding_comments() {
    let yaml = r#"
# This is a block comment
# that explains checkout.
- uses: actions/checkout@v3
"#;
    let path = ".github/workflows/ci.yml";
    let results = find_tasks(path, yaml, &vec![]).unwrap();

    assert_eq!(results.len(), 1);
    assert_eq!(results[0].action.0, "actions/checkout");
    assert_eq!(
        results[0].preceding_comments.as_deref(),
        Some("# This is a block comment\n# that explains checkout.")
    );
}

#[test]
fn test_resolve_gitlab_project_success() {
    let yaml = r#"
include:
  - project: 'my-group/my-project'
    ref: 'v1.0.0'
"#;
    let results = find_tasks(".gitlab-ci.yml", yaml, &vec![]).unwrap();
    assert_eq!(results.len(), 1);
    assert_eq!(results[0].action.0, "my-group/my-project");
    assert_eq!(results[0].current_tag.as_deref(), Some("v1.0.0"));
    assert_eq!(results[0].key, "ref");
}

#[test]
fn find_tasks_positions_and_comments() {
    let yaml = "jobs:\n  b:\n    steps:\n      - uses: actions/checkout@v3 # pinned later\n";
    let results = find_tasks(".github/workflows/ci.yml", yaml, &vec![]).unwrap();
    assert_eq!(results.len(), 1);
    let t = &results[0];
    assert_eq!(t.line, 4);
    assert_eq!(t.column, 15);
    assert_eq!(&yaml[t.start..t.end], "actions/checkout@v3");
    assert_eq!(t.comment.as_deref(), Some("# pinned later"));
    assert_eq!(t.provider, CiProvider::GitHub);
    assert_eq!(t.path, ".github/workflows/ci.yml");
}

#[test]
fn find_tasks_skips_local_actions() {
    let yaml = "- uses: ./local/action\n- uses: a/b@v1\n";
    let results = find_tasks(".github/workflows/ci.yml", yaml, &vec![]).unwrap();
    assert_eq!(results.len(), 1);
    assert_eq!(results[0].action.0, "a/b");
}

#[test]
fn unquote_cases() {
    assert_eq!(unquote("'v1'"), "v1");
    assert_eq!(unquote("'mixed\""), "'mixed\"");
    assert_eq!(unquote("\t\"x\"\n"), "x");
}

#[test]
fn preceding_comments_are_collected() {
    let lines = lines_of("# a\n  # b\nuses: x\n");
    assert_eq!(lines, vec!["# a", "  # b", "uses: x"]);
    assert_eq!(collect_preceding_comments(&lines, 3), Some("# a\n# b".to_string()));
    assert_eq!(collect_preceding_comments(&lines, 1), None);
    assert_eq!(collect_preceding_comments(&lines, 2), Some("# a".to_string()));
    let lines = lines_of("x: 1\nuses: y\n");
    assert_eq!(collect_preceding_comments(&lines, 2), None);
}

#[test]
fn lines_follow_str_lines() {
    for text in ["", "\n", "a", "a\n", "a\r\nb", "a\n\nb\n", "\r\n\r\n"] {
        let expected: Vec<String> = text.lines().map(|l| l.to_string()).collect();
        assert_eq!(lines_of(text), expected);
    }
}

#[test]
fn ci_provider_other_locations() {
    assert_eq!(CiProvider::from_path(".forgejo/workflows/a.yml"), CiProvider::Forgejo);
    assert_eq!(CiProvider::from_path(".gitea/workflows/a.yml"), CiProvider::Gitea);
    assert_eq!(CiProvider::from_path("azure-pipelines.yml"), CiProvider::AzureDevOps);
    assert_eq!(CiProvider::from_path("BUILDSPEC.yml"), CiProvider::AwsCodeBuild);
    assert_eq!(CiProvider::from_path("deploy/CronJob.YML"), CiProvider::Kubernetes);
    assert_eq!(CiProvider::from_path("docker-compose.yml"), CiProvider::Unknown);
}
