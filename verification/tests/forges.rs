use pinner::domain::{DependencyName, DependencyRef};
use pinner::error::PinnerError;
use pinner::resolver::forges::{api_for_route, authorization, escape_project, forge_step, repository_of, ForgeApi, ForgeStep, Reading, Reply, Request};
use pinner::resolver::json::read_values;
use pinner::resolver::osv::{osv_lists_any, osv_vulnerabilities, read_osv_reply, OsvClient, OsvReply};
use pinner::resolver::plan::{Fetch, Fetched};
use pinner::resolver::registry::{credential_registry, digest_step, locate_image, replace_all, OciRegistryProvider, RegistryStep};
use pinner::resolver::routing::UnifiedProviderConfig;

fn ok(code: u16, values: &[&str]) -> Reply {
    Reply {
        code,
        status: format!("{} OK", code),
        values: Ok(Some(values.iter().map(|s| s.to_string()).collect())),
        reset: None,
        retry_after: None,
    }
}

fn status(code: u16, text: &str) -> Reply {
    Reply { code, status: text.to_string(), values: Ok(None), reset: None, retry_after: None }
}

fn get_url(s: ForgeStep) -> String {
    match s {
        ForgeStep::Send(Request::Get { url, .. }) => url,
        other => panic!("expected a GET, got {:?}", other),
    }
}

fn commit(reference: &str) -> Fetch {
    Fetch::CommitSha { reference: reference.to_string() }
}

#[test]
fn github_commit_request_and_answer() {
    let action = DependencyName::from("o/r");
    let url = get_url(forge_step(ForgeApi::GitHub, "https://api", &commit("v1"), &action, &vec![]));
    assert_eq!(url, "https://api/repos/o/r/commits/v1");
    match forge_step(ForgeApi::GitHub, "https://api", &commit("v1"), &action, &vec![ok(200, &["123"])]) {
        ForgeStep::Done(Ok(Fetched::Sha(DependencyRef::GitSha(s)))) => assert_eq!(s, "123"),
        other => panic!("unexpected {:?}", other),
    }
}

#[test]
fn github_subdirectory_actions_use_their_repository() {
    assert_eq!(repository_of("github/codeql-action/init"), "github/codeql-action");
    assert_eq!(repository_of("o/r"), "o/r");
    assert_eq!(repository_of("single"), "single");
    let url = get_url(forge_step(ForgeApi::GitHub, "b", &Fetch::Tags, &DependencyName::from("github/codeql-action/init"), &vec![]));
    assert_eq!(url, "b/repos/github/codeql-action/tags");
}

#[test]
fn github_release_falls_back_to_the_default_branch() {
    let action = DependencyName::from("o/r");
    let replies = vec![status(404, "404 Not Found")];
    let url = get_url(forge_step(ForgeApi::GitHub, "s", &Fetch::LatestRelease, &action, &replies));
    assert_eq!(url, "s/repos/o/r");
    let replies = vec![status(404, "404 Not Found"), ok(200, &["main"])];
    match forge_step(ForgeApi::GitHub, "s", &Fetch::LatestRelease, &action, &replies) {
        ForgeStep::Done(Ok(Fetched::Release(t))) => assert_eq!(t, "main"),
        other => panic!("unexpected {:?}", other),
    }
}

#[test]
fn github_default_branch_failure_is_main() {
    let action = DependencyName::from("o/r");
    match forge_step(ForgeApi::GitHub, "s", &Fetch::DefaultBranch, &action, &vec![status(500, "500 Internal Server Error")]) {
        ForgeStep::Done(Ok(Fetched::Branch(b))) => assert_eq!(b, "main"),
        other => panic!("unexpected {:?}", other),
    }
}

#[test]
fn github_tag_listing_failure_is_an_error() {
    let action = DependencyName::from("o/r");
    match forge_step(ForgeApi::GitHub, "s", &Fetch::Tags, &action, &vec![status(500, "500 Internal Server Error")]) {
        ForgeStep::Done(Err(PinnerError::Api(m))) => assert_eq!(m, "HTTP 500 Internal Server Error: Error for action o/r at s"),
        other => panic!("unexpected {:?}", other),
    }
    match forge_step(ForgeApi::GitHub, "s", &Fetch::Tags, &action, &vec![ok(200, &["v1.0.0", "v1.1.0"])]) {
        ForgeStep::Done(Ok(Fetched::Tags(ts))) => assert_eq!(ts, vec!["v1.0.0".to_string(), "v1.1.0".to_string()]),
        other => panic!("unexpected {:?}", other),
    }
}

#[test]
fn azure_tasks_resolve_through_the_task_repository() {
    let action = DependencyName::from("NodeTool");
    let url = get_url(forge_step(ForgeApi::Azure, "s", &commit("0"), &action, &vec![]));
    assert_eq!(url, "s/repos/microsoft/azure-pipelines-tasks/releases/latest");
    let replies = vec![ok(200, &["v3.238.1"])];
    let url = get_url(forge_step(ForgeApi::Azure, "s", &commit("0"), &action, &replies));
    assert_eq!(url, "s/repos/microsoft/azure-pipelines-tasks/commits/v3.238.1");
    let replies = vec![ok(200, &["v3.238.1"]), ok(200, &["azuresha"])];
    match forge_step(ForgeApi::Azure, "s", &commit("0"), &action, &replies) {
        ForgeStep::Done(Ok(Fetched::Sha(d))) => assert_eq!(d.to_string(), "azuresha"),
        other => panic!("unexpected {:?}", other),
    }
}

#[test]
fn gitlab_projects_are_escaped() {
    assert_eq!(escape_project("group/sub/repo"), "group%2Fsub%2Frepo");
    let action = DependencyName::from("group/repo");
    let url = get_url(forge_step(ForgeApi::GitLab, "https://gitlab.com", &commit("v1"), &action, &vec![]));
    assert_eq!(url, "https://gitlab.com/api/v4/projects/group%2Frepo/repository/commits/v1");
}

#[test]
fn gitlab_release_without_releases_is_the_default_branch() {
    let action = DependencyName::from("g/r");
    let replies = vec![ok(200, &[])];
    let url = get_url(forge_step(ForgeApi::GitLab, "s", &Fetch::LatestRelease, &action, &replies));
    assert_eq!(url, "s/api/v4/projects/g%2Fr");
    let replies = vec![ok(200, &[]), status(200, "200 OK")];
    match forge_step(ForgeApi::GitLab, "s", &Fetch::LatestRelease, &action, &replies) {
        ForgeStep::Done(Ok(Fetched::Release(t))) => assert_eq!(t, "main"),
        other => panic!("unexpected {:?}", other),
    }
}

#[test]
fn forgejo_urls() {
    let action = DependencyName::from("o/r");
    assert_eq!(get_url(forge_step(ForgeApi::Forgejo, "c", &commit("v1"), &action, &vec![])), "c/api/v1/repos/o/r/commits/v1");
    assert_eq!(get_url(forge_step(ForgeApi::Forgejo, "c", &Fetch::Tags, &action, &vec![])), "c/api/v1/repos/o/r/tags");
    match forge_step(ForgeApi::Forgejo, "c", &Fetch::Tags, &action, &vec![status(404, "404 Not Found")]) {
        ForgeStep::Done(Ok(Fetched::Tags(ts))) => assert!(ts.is_empty()),
        other => panic!("unexpected {:?}", other),
    }
}

#[test]
fn bitbucket_cloud_tag_then_branch() {
    let action = DependencyName::from("o/r");
    assert_eq!(
        get_url(forge_step(ForgeApi::BitbucketCloud, "b", &commit("main"), &action, &vec![])),
        "b/repositories/o/r/refs/tags/main"
    );
    match forge_step(ForgeApi::BitbucketCloud, "b", &commit("v1"), &action, &vec![ok(200, &["cloudsha"])]) {
        ForgeStep::Done(Ok(Fetched::Sha(d))) => assert_eq!(d.to_string(), "cloudsha"),
        other => panic!("unexpected {:?}", other),
    }
    match forge_step(ForgeApi::BitbucketCloud, "b", &commit("v1"), &action, &vec![ok(200, &["tagobj", "commitsha"])]) {
        ForgeStep::Done(Ok(Fetched::Sha(d))) => assert_eq!(d.to_string(), "commitsha"),
        other => panic!("unexpected {:?}", other),
    }
    let replies = vec![status(404, "404 Not Found")];
    assert_eq!(
        get_url(forge_step(ForgeApi::BitbucketCloud, "b", &commit("main"), &action, &replies)),
        "b/repositories/o/r/refs/branches/main"
    );
    let replies = vec![status(404, "404 Not Found"), ok(200, &["branchsha"])];
    match forge_step(ForgeApi::BitbucketCloud, "b", &commit("main"), &action, &replies) {
        ForgeStep::Done(Ok(Fetched::Sha(d))) => assert_eq!(d.to_string(), "branchsha"),
        other => panic!("unexpected {:?}", other),
    }
    let replies = vec![status(404, "404 Not Found"), status(404, "404 Not Found")];
    match forge_step(ForgeApi::BitbucketCloud, "b", &commit("nope"), &action, &replies) {
        ForgeStep::Done(Err(PinnerError::Api(m))) => assert_eq!(m, "Bitbucket API error (HTTP 404 Not Found): Ref not found: nope"),
        other => panic!("unexpected {:?}", other),
    }
}

#[test]
fn bitbucket_server_needs_project_and_repo() {
    match forge_step(ForgeApi::BitbucketServer, "b", &commit("v1"), &DependencyName::from("norepo"), &vec![]) {
        ForgeStep::Done(Err(PinnerError::Api(m))) => assert_eq!(m, "Invalid Bitbucket action format: norepo. Expected 'project/repo'"),
        other => panic!("unexpected {:?}", other),
    }
    let action = DependencyName::from("PROJ/repo");
    assert_eq!(
        get_url(forge_step(ForgeApi::BitbucketServer, "b", &commit("v1"), &action, &vec![])),
        "b/rest/api/1.0/projects/PROJ/repos/repo/tags/v1"
    );
    let replies = vec![status(404, "404 Not Found")];
    assert_eq!(
        get_url(forge_step(ForgeApi::BitbucketServer, "b", &commit("dev"), &action, &replies)),
        "b/rest/api/1.0/projects/PROJ/repos/repo/branches?filterText=dev"
    );
    match forge_step(ForgeApi::BitbucketServer, "b", &Fetch::DefaultBranch, &DependencyName::from("x"), &vec![]) {
        ForgeStep::Done(Ok(Fetched::Branch(b))) => assert_eq!(b, "main"),
        other => panic!("unexpected {:?}", other),
    }
}

#[test]
fn circleci_posts_a_graphql_query() {
    let action = DependencyName::from("circleci/node");
    match forge_step(ForgeApi::CircleCi, "https://circleci.com/graphql-unstable", &Fetch::LatestRelease, &action, &vec![]) {
        ForgeStep::Send(Request::Post { url, body, .. }) => {
            assert_eq!(url, "https://circleci.com/graphql-unstable");
            let v: serde_json::Value = serde_json::from_str(&body).unwrap();
            assert_eq!(v["variables"]["name"], "circleci/node");
            assert!(v["query"].as_str().unwrap().contains("versions(count: 1)"));
        },
        other => panic!("unexpected {:?}", other),
    }
    match forge_step(ForgeApi::CircleCi, "u", &Fetch::LatestRelease, &action, &vec![ok(200, &["5.1.0"])]) {
        ForgeStep::Done(Ok(Fetched::Release(t))) => assert_eq!(t, "5.1.0"),
        other => panic!("unexpected {:?}", other),
    }
    match forge_step(ForgeApi::CircleCi, "u", &Fetch::Tags, &action, &vec![status(200, "200 OK")]) {
        ForgeStep::Done(Err(PinnerError::Api(m))) => assert_eq!(m, "Orb not found: circleci/node"),
        other => panic!("unexpected {:?}", other),
    }
    match forge_step(ForgeApi::CircleCi, "u", &commit("v1"), &action, &vec![]) {
        ForgeStep::Done(Err(PinnerError::Api(_))) => {},
        other => panic!("unexpected {:?}", other),
    }
}

#[test]
fn routes_map_to_apis() {
    let c = UnifiedProviderConfig::default();
    assert_eq!(api_for_route(&c, 0), (ForgeApi::GitHub, "https://api.github.com".to_string()));
    assert_eq!(api_for_route(&c, 1).0, ForgeApi::Azure);
    assert_eq!(api_for_route(&c, 2).0, ForgeApi::BitbucketCloud);
    let mut c2 = UnifiedProviderConfig::default();
    c2.bitbucket_url = "https://git.example.com".to_string();
    assert_eq!(api_for_route(&c2, 2).0, ForgeApi::BitbucketServer);
    assert_eq!(api_for_route(&c, 5).0, ForgeApi::CircleCi);
}

#[test]
fn test_oci_registry_provider_default() {
    let p = OciRegistryProvider::default();
    assert_eq!(p.auth_url, "https://auth.docker.io/token");
    assert!(!p.offline);
}

#[test]
fn test_oci_registry_provider_with_base_urls() {
    let p = OciRegistryProvider::with_base_urls("auth_url".to_string(), "base_url".to_string());
    assert_eq!(p.auth_url, "auth_url");
    assert_eq!(p.base_url_template, "base_url");
}

#[test]
fn image_locations() {
    assert_eq!(locate_image("alpine"), ("registry-1.docker.io".to_string(), "library/alpine".to_string()));
    assert_eq!(locate_image("grafana/grafana"), ("registry-1.docker.io".to_string(), "grafana/grafana".to_string()));
    assert_eq!(locate_image("ghcr.io/o/r"), ("ghcr.io".to_string(), "o/r".to_string()));
    assert_eq!(locate_image("localhost/repo"), ("localhost".to_string(), "repo".to_string()));
    assert_eq!(locate_image("host:5000/repo"), ("host:5000".to_string(), "repo".to_string()));
    assert_eq!(credential_registry("docker.io"), "https://index.docker.io/v1/");
    assert_eq!(credential_registry("ghcr.io"), "ghcr.io");
}

#[test]
fn replace_all_is_str_replace() {
    for (s, p, r) in [("a{x}b{x}", "{x}", "1"), ("aaaa", "aa", "b"), ("", "x", "y"), ("abc", "z", "q"), ("{t}{t}", "{t}", "{t}{t}")] {
        assert_eq!(replace_all(s, p, r), s.replace(p, r));
    }
}

fn req(s: RegistryStep) -> (String, Option<String>) {
    match s {
        RegistryStep::Send(r) => (r.url, r.authorization),
        other => panic!("expected a request, got {:?}", other),
    }
}

#[test]
fn docker_hub_digest_with_token() {
    let p = OciRegistryProvider::with_base_urls("https://auth/token".to_string(), "https://{registry}/v2/{repository}/manifests/{tag}".to_string());
    let (url, auth) = req(digest_step(&p, "alpine", "latest", &None, &vec![]));
    assert_eq!(url, "https://auth/token?service=registry.docker.io&scope=repository:library/alpine:pull");
    assert_eq!(auth, None);
    let (url, auth) = req(digest_step(&p, "alpine", "latest", &None, &vec![ok(200, &["test-token"])]));
    assert_eq!(url, "https://registry-1.docker.io/v2/library/alpine/manifests/latest");
    assert_eq!(auth, Some("Bearer test-token".to_string()));
    match digest_step(&p, "alpine", "latest", &None, &vec![ok(200, &["test-token"]), ok(200, &["sha256:12345"])]) {
        RegistryStep::Done(Ok(d)) => assert_eq!(d, "sha256:12345"),
        other => panic!("unexpected {:?}", other),
    }
}

#[test]
fn docker_hub_token_with_credentials() {
    let p = OciRegistryProvider::new(Some("user".into()), Some("pass".into()));
    let (_, auth) = req(digest_step(&p, "alpine", "latest", &None, &vec![]));
    assert_eq!(auth, Some("Basic dXNlcjpwYXNz".to_string()));
    match digest_step(&p, "alpine", "latest", &None, &vec![status(401, "401 Unauthorized")]) {
        RegistryStep::Done(Err(PinnerError::Api(m))) => assert_eq!(m, "Failed to authenticate: 401 Unauthorized"),
        other => panic!("unexpected {:?}", other),
    }
}

#[test]
fn private_registry_manifest_failure() {
    let p = OciRegistryProvider::with_base_urls("a".to_string(), "http://srv/v2/{repository}/manifests/{tag}".to_string());
    let (url, auth) = req(digest_step(&p, "localhost/repo", "latest", &Some(("u".to_string(), "p".to_string())), &vec![]));
    assert_eq!(url, "http://srv/v2/repo/manifests/latest");
    assert_eq!(auth, Some("Basic dTpw".to_string()));
    match digest_step(&p, "localhost/repo", "latest", &None, &vec![status(404, "404 Not Found")]) {
        RegistryStep::Done(Err(PinnerError::Api(m))) => assert_eq!(m, "Failed to fetch manifest: HTTP 404 Not Found"),
        other => panic!("unexpected {:?}", other),
    }
}

#[test]
fn offline_registry_sends_nothing() {
    let p = OciRegistryProvider::default().with_offline(true);
    match digest_step(&p, "alpine", "3", &None, &vec![]) {
        RegistryStep::Done(Err(PinnerError::Api(m))) => {
            assert_eq!(m, "Network request to resolve OCI digest for alpine@3 is disabled in offline mode")
        },
        other => panic!("unexpected {:?}", other),
    }
}

#[test]
fn requests_say_how_replies_are_read() {
    match forge_step(ForgeApi::GitHub, "s", &commit("v1"), &DependencyName::from("o/r"), &vec![]) {
        ForgeStep::Send(Request::Get { reading: Reading::One(p), .. }) => assert_eq!(p, "/sha"),
        other => panic!("unexpected {:?}", other),
    }
    match forge_step(ForgeApi::BitbucketCloud, "s", &commit("v1"), &DependencyName::from("o/r"), &vec![]) {
        ForgeStep::Send(Request::Get { reading: Reading::Refined(a, b), .. }) => {
            assert_eq!((a.as_str(), b.as_str()), ("/target/hash", "/target/target/hash"))
        },
        other => panic!("unexpected {:?}", other),
    }
}

#[test]
fn osv_query_for_a_commit() {
    let client = OsvClient::new(false);
    let (url, body) = client.query_commit("abc123", None).unwrap();
    assert_eq!(url, "https://api.osv.dev/v1/query");
    assert_eq!(body, "{\"commit\":\"abc123\"}");
    let (url, _) = client.query_commit("abc123", Some("http://localhost:1/q".to_string())).unwrap();
    assert_eq!(url, "http://localhost:1/q");
}

#[test]
fn osv_query_escapes_the_commit() {
    let (_, body) = OsvClient::new(false).query_commit("a\"b", None).unwrap();
    assert_eq!(body, "{\"commit\":\"a\\\"b\"}");
}

#[test]
fn osv_query_offline_fails() {
    match OsvClient::new(true).query_commit("abc123", None) {
        Err(PinnerError::Api(m)) => assert_eq!(m, "Network request to OSV for commit abc123 is disabled in offline mode"),
        other => panic!("unexpected {:?}", other),
    }
}

#[test]
fn osv_replies_are_read() {
    assert_eq!(
        read_osv_reply(OsvReply::Answered { success: true, status: "200 OK".to_string(), body: Ok("{}".to_string()) }).unwrap(),
        Some("{}".to_string())
    );
    match read_osv_reply(OsvReply::Answered { success: false, status: "500 Internal Server Error".to_string(), body: Ok(String::new()) }) {
        Err(PinnerError::Api(m)) => assert_eq!(m, "OSV API returned error status: 500 Internal Server Error"),
        other => panic!("unexpected {:?}", other),
    }
    match read_osv_reply(OsvReply::Unsent("refused".to_string())) {
        Err(PinnerError::Api(m)) => assert_eq!(m, "Failed to send OSV request: refused"),
        other => panic!("unexpected {:?}", other),
    }
    match read_osv_reply(OsvReply::Answered { success: true, status: "200 OK".to_string(), body: Err("cut".to_string()) }) {
        Err(PinnerError::Api(m)) => assert_eq!(m, "Failed to read OSV response body: cut"),
        other => panic!("unexpected {:?}", other),
    }
}

#[test]
fn provenance_verifies_online_only() {
    assert_eq!(OciRegistryProvider::default().verify_provenance("alpine", "sha256:1").unwrap(), true);
    match OciRegistryProvider::default().with_offline(true).verify_provenance("alpine", "sha256:1") {
        Err(PinnerError::Api(m)) => {
            assert_eq!(m, "Network request to verify OCI provenance for alpine@sha256:1 is disabled in offline mode")
        },
        other => panic!("unexpected {:?}", other),
    }
}

#[test]
fn json_one_reads_a_string() {
    let body = r#"{"object":{"sha":"abc"},"n":3}"#;
    assert_eq!(read_values(body, &Reading::One("/object/sha".to_string())), Ok(Some(vec!["abc".to_string()])));
    assert_eq!(read_values(body, &Reading::One("/object/missing".to_string())), Ok(None));
    assert_eq!(read_values(body, &Reading::One("/n".to_string())), Ok(None));
}

#[test]
fn json_each_reads_every_item() {
    let body = r#"[{"name":"v2"},{"name":"v1"}]"#;
    assert_eq!(
        read_values(body, &Reading::Each("".to_string(), "/name".to_string())),
        Ok(Some(vec!["v2".to_string(), "v1".to_string()]))
    );
    assert_eq!(read_values(r#"{"values":{}}"#, &Reading::Each("/values".to_string(), "/name".to_string())), Ok(None));
    assert_eq!(
        read_values(r#"[{"name":"v2"},{"tag":"x"}]"#, &Reading::Each("".to_string(), "/name".to_string())),
        Err("missing field `/name`".to_string())
    );
}

#[test]
fn json_refined_needs_the_required_field() {
    let r = || Reading::Refined("/target/hash".to_string(), "/target/target/hash".to_string());
    assert_eq!(read_values(r#"{"target":{"hash":"h1"}}"#, &r()), Ok(Some(vec!["h1".to_string()])));
    assert_eq!(
        read_values(r#"{"target":{"hash":"h1","target":{"hash":"h2"}}}"#, &r()),
        Ok(Some(vec!["h1".to_string(), "h2".to_string()]))
    );
    assert_eq!(read_values(r#"{"target":{"target":{"hash":"h2"}}}"#, &r()), Ok(None));
}

#[test]
fn json_that_does_not_parse_is_an_error() {
    assert!(read_values("not json", &Reading::One("/a".to_string())).is_err());
}

#[test]
fn authorization_uses_each_api_scheme() {
    let mut c = UnifiedProviderConfig::default();
    assert_eq!(authorization(&c, ForgeApi::GitHub), None);
    c.github_token = Some("g".to_string());
    c.forgejo_token = Some("f".to_string());
    c.circleci_token = Some("c".to_string());
    assert_eq!(authorization(&c, ForgeApi::GitHub), Some("Bearer g".to_string()));
    assert_eq!(authorization(&c, ForgeApi::Azure), Some("Bearer g".to_string()));
    assert_eq!(authorization(&c, ForgeApi::Forgejo), Some("token f".to_string()));
    assert_eq!(authorization(&c, ForgeApi::CircleCi), Some("c".to_string()));
}

#[test]
fn osv_answers_are_read() {
    assert_eq!(osv_vulnerabilities("{}"), Some(vec![]));
    assert_eq!(osv_vulnerabilities(r#"{"vulns":null}"#), Some(vec![]));
    assert_eq!(
        osv_vulnerabilities(r#"{"vulns":[{"id":"GHSA-1","summary":"Malicious","details":"x"},{"id":"CVE-2"}]}"#),
        Some(vec![
            ("GHSA-1".to_string(), "Malicious".to_string(), "x".to_string()),
            ("CVE-2".to_string(), String::new(), String::new())
        ])
    );
    assert_eq!(osv_vulnerabilities(r#"{"vulns":[{"summary":"no id"}]}"#), None);
    assert_eq!(osv_vulnerabilities(r#"{"vulns":[{"id":"A","summary":3}]}"#), None);
    assert_eq!(osv_vulnerabilities(r#"{"vulns":{}}"#), None);
    assert_eq!(osv_vulnerabilities("nope"), None);
}

#[test]
fn osv_listing_counts_any_record() {
    assert_eq!(osv_lists_any("{}"), Some(false));
    assert_eq!(osv_lists_any(r#"{"vulns":[]}"#), Some(false));
    assert_eq!(osv_lists_any(r#"{"vulns":[{"anything":1}]}"#), Some(true));
    assert_eq!(osv_lists_any(r#"{"vulns":"x"}"#), None);
    assert_eq!(osv_lists_any("nope"), None);
}
