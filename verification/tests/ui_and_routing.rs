use pinner::cli::OutputFormat;
use pinner::config::Config;
use pinner::domain::{DependencyName, DependencyRef, UpdateResult, UpdateTask};
use pinner::error::PinnerError;
use pinner::patcher::formatter::{markdown_summary, Formatter, HashSecurityStatus};
use pinner::patcher::ui::{chosen_upgrades, pending_upgrades, upgrade_item, ConsoleUi, UpgradePrompt, UserInterface};
use pinner::pipeline::init::{init_project, init_project_with_selection, ProjectLayout};
use pinner::resolver::routing::{default_routes, handle_error, parse_i64, route, UnifiedProviderConfig};
use pinner::scanner::walker::{is_yaml_path, Scanner};
use pinner::session::{apply_options, get_workflows, OperationsOptions};
use pinner::cli::UpgradeStrategy;

fn result(action: &str, old: Option<&str>, sha: &str, new: Option<&str>) -> UpdateResult {
    UpdateResult {
        task: UpdateTask::default(),
        action: DependencyName::from(action),
        path: "f.yml".to_string(),
        old_tag: old.map(|s| s.to_string()),
        new_sha: DependencyRef::GitSha(sha.to_string()),
        new_tag: new.map(|s| s.to_string()),
    }
}

#[test]
fn console_ui_keeps_the_flag() {
    assert!(ConsoleUi::new(true).confirms_without_prompt());
    assert!(!ConsoleUi::new(false).confirms_without_prompt());
}

#[test]
fn pending_upgrades_of_nothing_is_nothing() {
    assert!(pending_upgrades(vec![]).is_empty());
}

#[test]
fn pending_upgrades_drop_unchanged_tags() {
    let results = vec![result("actions/checkout", Some("v3"), "hash1", Some("v3"))];
    assert!(pending_upgrades(results).is_empty());
}

#[test]
fn pending_upgrades_keep_new_tags_in_order() {
    let results = vec![
        result("a/one", Some("v1"), "h1", Some("v2")),
        result("a/two", Some("v1"), "h2", None),
        result("a/three", None, "h3", Some("v4")),
        result("a/four", Some("v5"), "h4", Some("v5")),
    ];
    let kept = pending_upgrades(results);
    let names: Vec<String> = kept.iter().map(|r| r.action.0.clone()).collect();
    assert_eq!(names, vec!["a/one".to_string(), "a/three".to_string()]);
}

#[test]
fn chosen_upgrades_follow_positions() {
    let results = vec![
        result("a/one", Some("v1"), "h1", Some("v2")),
        result("a/two", Some("v1"), "h2", Some("v3")),
        result("a/three", None, "h3", Some("v4")),
    ];
    let kept = chosen_upgrades(results, &vec![0, 2]);
    let names: Vec<String> = kept.iter().map(|r| r.action.0.clone()).collect();
    assert_eq!(names, vec!["a/one".to_string(), "a/three".to_string()]);
}

#[test]
fn upgrade_item_lists_the_pieces() {
    let item = upgrade_item(&result("a/one", None, "h1", Some("v2")));
    assert!(item.contains("a/one"));
    assert!(item.contains("latest"));
    assert!(item.contains("v2"));
    assert!(item.contains("f.yml"));
    assert!(item.contains(" -> "));
}

#[test]
fn test_provider_registry_routing() {
    let routes = default_routes();
    assert_eq!(routes.len(), 6);
    // Domain-based routing (GitLab)
    let i = route(&routes, "image", &DependencyName::from("gitlab.com/group/repo"));
    assert_eq!(routes[i].variant, "GitLab");
    // Key-based routing (Bitbucket)
    let i = route(&routes, "pipe", &DependencyName::from("sonarsource/sonarcloud-scan"));
    assert_eq!(routes[i].variant, "Bitbucket");
    // Key-based routing (CircleCI)
    let i = route(&routes, "orbs", &DependencyName::from("circleci/node"));
    assert_eq!(routes[i].variant, "CircleCi");
    // Fallback (GitHub)
    let i = route(&routes, "uses", &DependencyName::from("actions/checkout"));
    assert_eq!(routes[i].variant, "GitHub");
}

#[test]
fn routing_prefers_domains_and_falls_back_to_the_first() {
    let routes = default_routes();
    let i = route(&routes, "uses", &DependencyName::from("codeberg.org/owner/repo"));
    assert_eq!(routes[i].variant, "Forgejo");
    let i = route(&routes, "task", &DependencyName::from("NodeTool"));
    assert_eq!(routes[i].variant, "Azure");
    let i = route(&routes, "unknown", &DependencyName::from("o/r"));
    assert_eq!(i, 0);
}

#[test]
fn unified_provider_config_defaults() {
    let c = UnifiedProviderConfig::default();
    assert_eq!(c.github_url, "https://api.github.com");
    assert_eq!(c.bitbucket_url, "https://api.bitbucket.org/2.0");
    assert_eq!(c.gitlab_url, "https://gitlab.com");
    assert_eq!(c.forgejo_url, "https://codeberg.org");
    assert_eq!(c.circleci_url, "https://circleci.com/graphql-unstable");
    assert!(c.github_token.is_none());
}

#[test]
fn test_handle_error_rate_limit() {
    let base = "https://api.github.com";
    let action = DependencyName::from("actions/checkout");

    let err = handle_error(403, "403 Forbidden", base, &action, Some("1718352000"), None);
    assert!(matches!(err, PinnerError::RateLimit(_)));
    assert!(err.to_string().contains("Rate limit resets at 2024-06-14 08:00:00 UTC"));

    let err = handle_error(429, "429 Too Many Requests", base, &action, None, Some("60"));
    assert!(matches!(err, PinnerError::RateLimit(_)));
    assert!(err.to_string().contains("Retry after 60 seconds"));

    let err = handle_error(500, "500 Internal Server Error", base, &action, None, None);
    assert!(matches!(err, PinnerError::Api(_)));
    assert!(err.to_string().contains("HTTP 500"));
}

#[test]
fn rate_limit_message_is_exact() {
    let action = DependencyName::from("o/r");
    match handle_error(429, "429 Too Many Requests", "https://x", &action, Some("soon"), Some("60")) {
        PinnerError::RateLimit(m) => assert_eq!(
            m,
            "API rate limit exceeded (HTTP 429 Too Many Requests) at https://x. Try providing an API token to increase limits."
        ),
        other => panic!("unexpected {:?}", other),
    }
    match handle_error(404, "404 Not Found", "https://x", &action, None, None) {
        PinnerError::Api(m) => assert_eq!(m, "HTTP 404 Not Found: Error for action o/r at https://x"),
        other => panic!("unexpected {:?}", other),
    }
}

#[test]
fn parse_i64_reads_like_std() {
    for s in ["0", "42", "-17", "+5", "9223372036854775807", "-9223372036854775808", "", "-", "+", "1a", " 1", "9223372036854775808", "-9223372036854775809", "123456789012345678901234567890"] {
        assert_eq!(parse_i64(s), s.parse::<i64>().ok(), "{}", s);
    }
}

#[test]
fn yaml_paths_by_extension() {
    assert!(is_yaml_path("ci.yml"));
    assert!(is_yaml_path(".github/workflows/build.yaml"));
    assert!(!is_yaml_path(".yml"));
    assert!(!is_yaml_path("notes.txt"));
    assert!(!is_yaml_path("yml"));
    assert!(is_yaml_path("a.b.yml"));
}

#[test]
fn scanner_override_patterns() {
    let scanner = Scanner::new(vec!["ignore/me".to_string(), "!keep/*".to_string()]);
    assert_eq!(scanner.override_patterns(), vec!["!ignore/me".to_string(), "!keep/*".to_string()]);
}

#[test]
fn scanner_collects_tasks_of_files_in_order() {
    let scanner = Scanner::new(vec![]);
    let files = vec![
        ("a/ci.yml".to_string(), "uses: actions/checkout@v3".to_string()),
        ("b/ci.yml".to_string(), "uses: actions/setup-node@v4".to_string()),
    ];
    let (tasks, contents) = scanner.collect_from_files(files.clone()).unwrap();
    assert_eq!(tasks.len(), 2);
    assert_eq!(tasks[0].action.0, "actions/checkout");
    assert_eq!(tasks[1].action.0, "actions/setup-node");
    assert_eq!(contents, files);
}

#[test]
fn scanner_ignores_listed_actions() {
    let scanner = Scanner::new(vec!["ignore/me".to_string()]);
    let files = vec![("ci.yml".to_string(), "uses: actions/checkout@v3\nuses: ignore/me@v1".to_string())];
    let (tasks, _) = scanner.collect_from_files(files).unwrap();
    assert_eq!(tasks.len(), 1);
    assert_eq!(tasks[0].action.0, "actions/checkout");
}

fn formatter(vetted: Vec<String>, show: bool) -> Formatter {
    Formatter::new(OutputFormat::Text, false, vetted, vec![], show)
}

#[test]
fn test_format_diff() {
    let formatter = formatter(vec!["hash3".to_string()], true);
    let old = "line1\nuses: actions/checkout@v2\n";
    let new = "line1\nuses: actions/checkout@hash3\n";
    let res = result("actions/checkout", Some("v2"), "hash3", Some("v2"));

    let diff = formatter.format_diff(old, new, &vec![res]);
    assert!(diff.contains("uses: actions/checkout@v2"));
    assert!(diff.contains("uses: actions/checkout@hash3"));
    assert!(diff.contains("[✓ vetted]"));
}

#[test]
fn test_format_inline_diff() {
    let formatter = formatter(vec![], true);
    let old = "actions/checkout@v2";
    let new = "actions/checkout@hash";
    let diff = formatter.format_inline_diff(old, new, HashSecurityStatus::NotChecked);
    assert!(diff.contains("-"));
    assert!(diff.contains("+"));
    assert!(diff.contains("v2"));
    assert!(diff.contains("hash"));
    assert!(diff.contains("[? not checked]"));
}

#[test]
fn test_format_diff_disabled_feedback() {
    let formatter = formatter(vec!["hash3".to_string()], false);
    let old = "line1\nuses: actions/checkout@v2\n";
    let new = "line1\nuses: actions/checkout@hash3\n";
    let res = result("actions/checkout", Some("v2"), "hash3", Some("v2"));

    let diff = formatter.format_diff(old, new, &vec![res]);
    assert!(diff.contains("uses: actions/checkout@v2"));
    assert!(diff.contains("uses: actions/checkout@hash3"));
    assert!(!diff.contains("[✓ vetted]"));
}

#[test]
fn format_diff_puts_the_label_before_the_newline() {
    colored::control::set_override(false);
    let formatter = formatter(vec!["hash3".to_string()], true);
    let old = "a\nuses: x@v2\n";
    let new = "a\nuses: x@hash3\n";
    let res = result("x", Some("v2"), "hash3", Some("v2"));
    let diff = formatter.format_diff(old, new, &vec![res]);
    assert_eq!(diff, " a\n-uses: x@v2\n+uses: x@hash3 [✓ vetted]\n");
}

#[test]
fn markdown_summary_table() {
    let rs = vec![result("actions/checkout", Some("v3"), "abc", Some("v3")), result("o/r", None, "def", None)];
    assert_eq!(
        markdown_summary(&rs),
        "\n# Pinner Update Summary\n\n| File | Action | Old Ref | New SHA |\n|------|--------|---------|---------|\n| `f.yml` | `actions/checkout` | `v3` | `abc` |\n| `f.yml` | `o/r` | `-` | `def` |\n"
    );
}

fn layout(config_exists: bool) -> ProjectLayout {
    ProjectLayout { github: true, gitlab: false, bitbucket: true, forgejo: false, circleci: false, config_exists }
}

#[test]
fn init_project_without_answer_starts_empty() {
    let (detected, content) = init_project(&layout(false), None);
    assert_eq!(detected, vec!["GitHub Actions".to_string(), "Bitbucket Pipelines".to_string()]);
    let (_, expected) = init_project_with_selection(&layout(false), 0);
    assert_eq!(content, expected);
    assert!(content.unwrap().contains("Example vetted action"));
    let (_, content) = init_project(&layout(true), Some(1));
    assert!(content.is_none());
}

#[test]
fn options_override_the_configuration() {
    let mut config = Config::default();
    config.concurrency = Some(3);
    config.ignore = Some(vec!["a".to_string()]);
    let options = OperationsOptions {
        yes: false,
        quiet: false,
        dry_run: false,
        format: OutputFormat::Text,
        upgrade_strategy: UpgradeStrategy::Latest,
        concurrency: Some(7),
        ignore: vec!["b".to_string()],
    };
    let c = apply_options(config, options);
    assert_eq!(c.concurrency, Some(7));
    assert_eq!(c.ignore, Some(vec!["a".to_string(), "b".to_string()]));
}

#[test]
fn test_console_ui_confirm_patch_yes() {
    let ui = ConsoleUi::new(true);
    assert!(ui.confirm_patch(None));
}

#[test]
fn test_console_ui_report_success() {
    let ui = ConsoleUi::new(true);
    let line = ui.report_success("dummy.yaml");
    assert!(line.contains("Updated successfully"));
}

#[test]
fn test_console_ui_report_skipped() {
    let ui = ConsoleUi::new(true);
    let line = ui.report_skipped("dummy.yaml");
    assert!(line.contains("Skipped"));
}

#[test]
fn test_console_ui_prompt_upgrade_empty() {
    let ui = ConsoleUi::new(true);
    let results = vec![];
    match ui.prompt_upgrade(results) {
        UpgradePrompt::Settled { results: res, .. } => assert!(res.is_empty()),
        UpgradePrompt::Ask { .. } => panic!("nothing should be asked"),
    }
}

#[test]
fn test_console_ui_prompt_upgrade_no_updates() {
    let ui = ConsoleUi::new(true);
    let results = vec![UpdateResult {
        task: UpdateTask::default(),
        action: DependencyName::from("actions/checkout"),
        path: "dummy.yaml".to_string(),
        old_tag: Some("v3".to_string()),
        new_sha: DependencyRef::GitSha("hash1".to_string()),
        new_tag: Some("v3".to_string()), // same tag
    }];
    match ui.prompt_upgrade(results) {
        UpgradePrompt::Settled { results: res, message } => {
            assert!(res.is_empty());
            assert!(message.contains("already up to date"));
        },
        UpgradePrompt::Ask { .. } => panic!("nothing should be asked"),
    }
}

#[test]
fn prompt_upgrade_asks_about_offered_upgrades() {
    let ui = ConsoleUi::new(false);
    let results = vec![
        result("a/one", Some("v1"), "h1", Some("v2")),
        result("a/two", Some("v1"), "h2", Some("v1")),
    ];
    match ui.prompt_upgrade(results) {
        UpgradePrompt::Ask { offered, items } => {
            assert_eq!(offered.len(), 1);
            assert_eq!(offered[0].action.0, "a/one");
            assert_eq!(items.len(), 1);
            assert!(items[0].contains("a/one") && items[0].contains("v2"));
        },
        UpgradePrompt::Settled { .. } => panic!("the upgrade should be offered"),
    }
}

#[test]
fn confirm_patch_follows_the_answer() {
    let ui = ConsoleUi::new(false);
    assert!(ui.confirm_patch(Some(true)));
    assert!(!ui.confirm_patch(Some(false)));
    assert!(!ui.confirm_patch(None));
}

#[test]
fn test_get_workflows_cli_priority() {
    let cli_paths = vec!["custom/path".to_string()];
    assert_eq!(get_workflows(cli_paths.clone(), &vec![false; 8]), cli_paths);
}

#[test]
fn test_ui_answers_as_configured() {
    let yes = pinner::patcher::ui::TestUi { response: true };
    let no = pinner::patcher::ui::TestUi { response: false };
    assert!(yes.confirm_patch(None));
    assert!(!no.confirm_patch(Some(true)));
    assert_eq!(yes.report_success("f.yml"), "");
    assert_eq!(yes.report_skipped("f.yml"), "");
    let results = vec![result("a/one", Some("v1"), "h1", Some("v1"))];
    match yes.prompt_upgrade(results) {
        UpgradePrompt::Settled { results: kept, message } => {
            assert_eq!(kept.len(), 1);
            assert!(message.is_empty());
        },
        UpgradePrompt::Ask { .. } => panic!("nothing should be asked"),
    }
}
