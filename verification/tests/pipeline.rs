use pinner::cli::{Commands, UpgradeStrategy};
use pinner::config::SecurityEntry;
use pinner::domain::{DependencyRef, UpdateTask, VerificationResult};
use pinner::patcher::HashSecurityStatus;
use pinner::pipeline::init::{detected_systems, hook_content, init_project_with_selection, initial_config, ProjectLayout};
use pinner::pipeline::pr::{choose_pr_host, modified_files, parse_git_remote, pr_url, target_branch, PrHost};
use pinner::pipeline::sbom::{component, components};
use pinner::pipeline::scan::{
    already_listed, classify, combine_lists, describes_attack, provenance_failure, record_entries,
    scan_targets, split_pinned, target_lookup, target_version, ScanClass,
};
use pinner::pipeline::verify::{
    apply_check, collect_findings, github_annotation, is_pinned, junit_case, junit_report,
    security_check, verdict, CheckOutcome, SecurityCheck, Verdict,
};
use pinner::session::{cache_ttl_secs, check_offline, combine_security_lists, default_concurrency, upgrade_strategy, verification_outcome};
use pinner::error::PinnerError;

fn task(action: &str, tag: Option<&str>, key: &str) -> UpdateTask {
    UpdateTask {
        path: "f.yml".to_string(),
        action: action.into(),
        current_tag: tag.map(|t| t.to_string()),
        key: key.to_string(),
        line: 3,
        column: 9,
        ..Default::default()
    }
}

const SHA: &str = "a1b2c3d4e5f6a1b2c3d4e5f6a1b2c3d4e5f6a1b2";

#[test]
fn test_parse_git_remote_ssh() {
    let url = "git@github.com:ffalcinelli/pinner.git";
    let parsed = parse_git_remote(url);
    assert_eq!(
        parsed,
        Some((
            "github.com".to_string(),
            "ffalcinelli".to_string(),
            "pinner".to_string()
        ))
    );
}

#[test]
fn test_parse_git_remote_https() {
    let url = "https://gitlab.com/group/subgroup/project.git";
    let parsed = parse_git_remote(url);
    assert_eq!(
        parsed,
        Some((
            "gitlab.com".to_string(),
            "group/subgroup".to_string(),
            "project".to_string()
        ))
    );
}

#[test]
fn parse_git_remote_rejects_other_forms() {
    assert_eq!(parse_git_remote("ftp://x/y/z"), None);
    assert_eq!(parse_git_remote("https://host"), None);
    assert_eq!(parse_git_remote("git@host:repo"), None);
    assert_eq!(
        parse_git_remote("  https://h/o/r  "),
        Some(("h".to_string(), "o".to_string(), "r".to_string()))
    );
}

#[test]
fn porcelain_status_and_branches() {
    let files = modified_files(" M .github/workflows/ci.yml\n?? new.yml\nweird\n");
    assert_eq!(files, vec![".github/workflows/ci.yml", "new.yml"]);
    assert_eq!(target_branch(Some("origin/develop".to_string())), "develop");
    assert_eq!(target_branch(Some("HEAD".to_string())), "main");
    assert_eq!(target_branch(None), "main");
    assert_eq!(choose_pr_host("github.com", false, false), PrHost::GitHub);
    assert_eq!(choose_pr_host("gitlab.example", false, true), PrHost::GitLab);
    assert_eq!(choose_pr_host("example.org", false, false), PrHost::Unsupported);
    assert_eq!(
        pr_url(PrHost::GitHub, "https://api.github.com", "o", "r"),
        "https://api.github.com/repos/o/r/pulls"
    );
    assert_eq!(
        pr_url(PrHost::GitLab, "https://gitlab.com/api/v4", "g/s", "p"),
        "https://gitlab.com/api/v4/projects/g%2Fs%2Fp/merge_requests"
    );
}

#[test]
fn pinned_and_verdicts() {
    assert!(!is_pinned(&task("a/b", Some("v3"), "uses")));
    assert!(is_pinned(&task("a/b", Some(SHA), "uses")));
    let digest = format!("sha256:{}", "0".repeat(64));
    assert!(is_pinned(&task("alpine", Some(&digest), "image")));
    assert!(!is_pinned(&task("alpine", Some("sha256:short"), "image")));
    assert!(is_pinned(&task("circleci/node", Some("5.0.0"), "orbs")));
    assert!(!is_pinned(&task("a/b", None, "uses")));
    let t = task("a/b", Some(SHA), "uses");
    assert_eq!(verdict(&t, HashSecurityStatus::Compromised, false), Verdict::Compromised);
    assert_eq!(verdict(&t, HashSecurityStatus::NotChecked, true), Verdict::NotVetted);
    assert_eq!(verdict(&t, HashSecurityStatus::NotChecked, false), Verdict::Clean);
    assert_eq!(verdict(&t, HashSecurityStatus::Vetted, true), Verdict::Clean);
    assert_eq!(verdict(&task("a/b", Some("v1"), "uses"), HashSecurityStatus::Vetted, false), Verdict::Unpinned);
}

#[test]
fn security_checks() {
    let t = task("a/b", Some(SHA), "uses");
    assert_eq!(
        security_check(&t, HashSecurityStatus::NotChecked, true),
        Some(SecurityCheck::Vulnerabilities { commit: SHA.to_string() })
    );
    assert_eq!(security_check(&t, HashSecurityStatus::Vetted, true), None);
    assert_eq!(security_check(&t, HashSecurityStatus::NotChecked, false), None);
    let digest = format!("sha256:{}", "1".repeat(64));
    let image = task("docker://alpine", Some(&digest), "uses");
    assert_eq!(
        security_check(&image, HashSecurityStatus::NotChecked, true),
        Some(SecurityCheck::Provenance { image: "alpine".to_string(), digest: digest.clone() })
    );
    assert_eq!(apply_check(HashSecurityStatus::NotChecked, CheckOutcome::Rejected), HashSecurityStatus::Compromised);
    assert_eq!(apply_check(HashSecurityStatus::NotChecked, CheckOutcome::Vulnerable(true)), HashSecurityStatus::Compromised);
    assert_eq!(apply_check(HashSecurityStatus::NotChecked, CheckOutcome::Vulnerable(false)), HashSecurityStatus::NotChecked);
    assert_eq!(apply_check(HashSecurityStatus::NotChecked, CheckOutcome::Unavailable), HashSecurityStatus::NotChecked);
}

#[test]
fn findings_and_reports() {
    let tasks = vec![
        task("a/b", Some("v3"), "uses"),
        task("c/d", Some(SHA), "uses"),
        task("e/f", Some(SHA), "uses"),
        task("g/h", Some(SHA), "uses"),
    ];
    let statuses = vec![
        HashSecurityStatus::NotChecked,
        HashSecurityStatus::Compromised,
        HashSecurityStatus::NotChecked,
        HashSecurityStatus::Vetted,
    ];
    let res = collect_findings(&tasks, &statuses, true);
    assert_eq!(res.unpinned.len(), 1);
    assert_eq!(res.unpinned[0].action.0, "a/b");
    assert_eq!(res.compromised.len(), 1);
    assert_eq!(res.compromised[0].hash, SHA);
    assert_eq!(res.non_vetted.len(), 1);
    assert!(!res.is_success());
    assert!(verification_outcome(&res).is_err());
    let relaxed = collect_findings(&tasks[1..].to_vec(), &vec![HashSecurityStatus::Vetted; 3], false);
    assert!(relaxed.is_success());
    assert!(verification_outcome(&relaxed).is_ok());

    assert_eq!(
        github_annotation(&tasks[0], Verdict::Unpinned).unwrap(),
        "::error file=f.yml,line=3,col=9::Dependency a/b is not pinned to a SHA (found tag: v3)"
    );
    assert_eq!(github_annotation(&tasks[3], Verdict::Clean), None);
    assert_eq!(
        junit_case(&tasks[3], Verdict::Clean),
        "    <testcase name=\"g/h\" classname=\"f.yml\" time=\"0.0\"/>"
    );
    let case = junit_case(&tasks[0], Verdict::Unpinned);
    assert!(case.contains("<failure message=\"Dependency is not pinned\">Dependency a/b is not pinned to a SHA (found tag: v3) in f.yml:3:9</failure>"));
    let report = junit_report(&vec!["<c/>".to_string()], 1);
    assert_eq!(
        report,
        "<?xml version=\"1.0\" encoding=\"UTF-8\"?>\n<testsuites name=\"Pinner Verification\" tests=\"1\" failures=\"1\" errors=\"0\" time=\"0.0\">\n  <testsuite name=\"pinner.verify\" tests=\"1\" failures=\"1\" errors=\"0\" time=\"0.0\">\n<c/>\n  </testsuite>\n</testsuites>\n"
    );
    let empty = VerificationResult::default();
    assert!(verification_outcome(&empty).is_ok());
}

#[test]
fn scan_preparation() {
    let tasks = vec![
        UpdateTask { comment: Some("# v4.1.7".to_string()), ..task("a/b", Some(SHA), "uses") },
        task("c/d", Some("v2"), "uses"),
    ];
    let (results, others) = split_pinned(tasks);
    assert_eq!(results.len(), 1);
    assert_eq!(results[0].new_sha, DependencyRef::GitSha(SHA.to_string()));
    assert_eq!(results[0].new_tag.as_deref(), Some("v4.1.7"));
    assert_eq!(others.len(), 1);
    assert_eq!(others[0].action.0, "c/d");

    let cands = vec![Some((DependencyRef::GitSha("newsha".to_string()), Some("v5".to_string())))];
    let targets = scan_targets(&results, &cands);
    assert_eq!(targets.len(), 2);
    assert_eq!(targets[0].candidate, "newsha # v5");
    assert_eq!(targets[1].sha, "newsha");
    assert_eq!(targets[1].candidate, "None");
    let twice = vec![results[0].clone(), results[0].clone()];
    let targets = scan_targets(&twice, &vec![None, None]);
    assert_eq!(targets.len(), 1);
    assert_eq!(targets[0].candidate, "None");
    assert_eq!(target_version(&targets[0]).as_deref(), Some("v4.1.7"));
    assert_eq!(target_lookup(&targets[0]), (true, SHA.to_string()));
}

#[test]
fn scan_judgement_and_recording() {
    assert!(describes_attack("Malicious code", ""));
    assert!(describes_attack("", "data EXFILTRATION found"));
    assert!(!describes_attack("Buffer overflow", "in parser"));
    assert_eq!(classify(&vec![]), ScanClass::Clean);
    assert_eq!(classify(&vec![("ID".to_string(), "s".to_string(), false)]), ScanClass::Vulnerable);
    assert_eq!(classify(&provenance_failure()), ScanClass::Compromised);

    let combined = combine_lists(
        Some(vec![SecurityEntry::from("a@1")]),
        Some(vec![SecurityEntry::from("b@2"), SecurityEntry::from("a@1")]),
    );
    assert_eq!(combined.len(), 2);
    assert!(already_listed(&combined, "b", "2"));
    assert!(already_listed(&vec![SecurityEntry::from("3")], "c", "3"));
    assert!(!already_listed(&combined, "c", "3"));

    let mut list = vec![SecurityEntry::from("a@1")];
    record_entries(
        &mut list,
        &vec![
            ("a".to_string(), "1".to_string(), None),
            ("b".to_string(), "2".to_string(), Some("v2".to_string())),
        ],
        "2026-01-01T00:00:00Z",
    );
    assert_eq!(list.len(), 2);
    assert_eq!(list[1].reference, "b@2");
    assert_eq!(list[1].tag.as_deref(), Some("v2"));
    assert_eq!(list[1].timestamp.as_deref(), Some("2026-01-01T00:00:00Z"));
}

#[test]
fn init_and_hook() {
    let layout = ProjectLayout { github: true, gitlab: false, bitbucket: true, forgejo: false, circleci: true, config_exists: false };
    assert_eq!(detected_systems(&layout), vec!["GitHub Actions", "Bitbucket Pipelines", "CircleCI"]);
    let (_, cfg) = init_project_with_selection(&layout, 1);
    let cfg = cfg.unwrap();
    assert!(cfg.starts_with("# Pinner configuration file\n"));
    assert!(cfg.contains("actions/checkout@692973e3d937129bcbf40652eb9f2f61becf3332"));
    assert!(cfg.ends_with("no_security_feedback = false"));
    assert!(initial_config(0).contains("# Example vetted action"));
    let existing = ProjectLayout { config_exists: true, ..layout };
    assert!(init_project_with_selection(&existing, 1).1.is_none());
    assert!(hook_content().contains("pinner verify --quiet"));
}

#[test]
fn sbom_components() {
    let c = component(&task("actions/checkout", Some("v4"), "uses"));
    assert_eq!(c.component_type, "library");
    assert_eq!(c.purl, "pkg:github/actions/checkout@v4");
    let c = component(&task("gcr.io/distroless/static", None, "image"));
    assert_eq!(c.component_type, "container");
    assert_eq!(c.version, "latest");
    assert_eq!(c.purl, "pkg:oci/gcr.io/distroless/static@latest");
    let all = components(&vec![task("a/b", Some("x@y"), "uses")]);
    assert_eq!(all[0].purl, "pkg:github/a/b@xy");
}

#[test]
fn session_settings() {
    assert!(check_offline(false, &Commands::Scan { upgrade_strategy: UpgradeStrategy::Latest }).is_ok());
    assert_eq!(
        check_offline(true, &Commands::Scan { upgrade_strategy: UpgradeStrategy::Latest }),
        Err(PinnerError::Config("Cannot run scan in offline mode".to_string()))
    );
    assert_eq!(
        check_offline(true, &Commands::Verify { check_osv: true, strict: false }),
        Err(PinnerError::Config("Cannot check OSV when offline mode is enabled".to_string()))
    );
    assert!(check_offline(true, &Commands::Pin).is_ok());
    assert_eq!(upgrade_strategy(&Commands::Scan { upgrade_strategy: UpgradeStrategy::Minor }), UpgradeStrategy::Minor);
    assert_eq!(upgrade_strategy(&Commands::Pin), UpgradeStrategy::Latest);
    assert_eq!(cache_ttl_secs(true, Some(5)), 0);
    assert_eq!(cache_ttl_secs(false, None), 3600);
    assert_eq!(default_concurrency(None), 10);

    let s = |v: &[&str]| v.iter().map(|x| x.to_string()).collect::<Vec<String>>();
    let (vetted, compromised) = combine_security_lists(
        s(&["lv"]),
        s(&["lc"]),
        s(&["gv", "lc", "lv"]),
        s(&["gc", "lv", "gv"]),
    );
    assert_eq!(vetted, s(&["lv", "gv"]));
    assert_eq!(compromised, s(&["lc", "gc"]));
}

#[test]
fn unpinned_are_reported_in_order_and_lenient_mode_vets_all() {
    let tasks = vec![
        task("a/one", Some("v1"), "uses"),
        task("a/two", Some(SHA), "uses"),
        task("a/three", None, "uses"),
    ];
    let statuses = vec![HashSecurityStatus::Compromised, HashSecurityStatus::NotChecked, HashSecurityStatus::Vetted];
    let res = collect_findings(&tasks, &statuses, false);
    let names: Vec<String> = res.unpinned.iter().map(|u| u.action.0.clone()).collect();
    assert_eq!(names, vec!["a/one".to_string(), "a/three".to_string()]);
    assert!(res.non_vetted.is_empty());
    assert!(res.compromised.is_empty());
}
