use pinner::cli::{Cli, Commands, OutputFormat, UpgradeStrategy};
use pinner::config::{format_security_list, Config, SecurityEntry};

fn default_cli(command: Commands) -> Cli {
    Cli {
        command,
        workflows: vec![],
        yes: false,
        quiet: false,
        verbose: false,
        no_cache: false,
        cache_ttl: None,
        offline: false,
        dry_run: false,
        github_token: None,
        bitbucket_token: None,
        gitlab_token: None,
        forgejo_token: None,
        circleci_token: None,
        format: OutputFormat::Text,
        github_url: "https://api.github.com".to_string(),
        bitbucket_url: "https://api.bitbucket.org/2.0".to_string(),
        gitlab_url: "https://gitlab.com".to_string(),
        forgejo_url: "https://codeberg.org".to_string(),
        circleci_url: "https://circleci.com/graphql-unstable".to_string(),
        concurrency: None,
        ignore: vec![],
        oci_username: None,
        oci_password: None,
    }
}

#[test]
fn test_merge_lists() {
    let mut cfg1 = Config {
        vetted: Some(vec![SecurityEntry::from("vet1")]),
        compromised: Some(vec![SecurityEntry::from("comp1")]),
        ..Default::default()
    };
    let cfg2 = Config {
        vetted: Some(vec![
            SecurityEntry::from("vet1"),
            SecurityEntry::from("vet2"),
        ]),
        compromised: Some(vec![SecurityEntry::from("comp2")]),
        ..Default::default()
    };
    cfg1.merge_lists(cfg2);
    assert_eq!(cfg1.vetted.unwrap().len(), 2);
    assert_eq!(cfg1.compromised.unwrap().len(), 2);
}

#[test]
fn merge_lists_keeps_order_and_skips_duplicates() {
    let mut cfg1 = Config {
        vetted: Some(vec![SecurityEntry::from("a"), SecurityEntry::from("b")]),
        ..Default::default()
    };
    let cfg2 = Config {
        vetted: Some(vec![
            SecurityEntry::from("c"),
            SecurityEntry::from("a"),
            SecurityEntry::from("c"),
        ]),
        ..Default::default()
    };
    cfg1.merge_lists(cfg2);
    let refs: Vec<String> = cfg1.vetted.unwrap().into_iter().map(|e| e.reference).collect();
    assert_eq!(refs, vec!["a", "b", "c"]);
    assert!(cfg1.compromised.is_none());
}

#[test]
fn merge_lists_into_absent_list() {
    let mut cfg1 = Config::default();
    let cfg2 = Config {
        compromised: Some(vec![SecurityEntry::from("x"), SecurityEntry::from("x")]),
        ..Default::default()
    };
    cfg1.merge_lists(cfg2);
    assert_eq!(cfg1.compromised.unwrap().len(), 1);
    assert!(cfg1.vetted.is_none());
}

#[test]
fn test_security_entry_from_string() {
    let entry = SecurityEntry::from("hello".to_string());
    assert_eq!(entry.reference, "hello");
}

#[test]
fn merge_all_prefers_the_other_config() {
    let mut base = Config {
        yes: Some(false),
        quiet: Some(true),
        github_token: Some("base".into()),
        vetted: Some(vec![SecurityEntry::from("v1")]),
        ..Default::default()
    };
    let local = Config {
        yes: Some(true),
        github_token: Some("local".into()),
        concurrency: Some(4),
        vetted: Some(vec![SecurityEntry::from("v2"), SecurityEntry::from("v1")]),
        ..Default::default()
    };
    base.merge_all(local);
    assert_eq!(base.yes, Some(true));
    assert_eq!(base.quiet, Some(true));
    assert_eq!(base.github_token, Some("local".to_string()));
    assert_eq!(base.concurrency, Some(4));
    let refs: Vec<String> = base.vetted.unwrap().into_iter().map(|e| e.reference).collect();
    assert_eq!(refs, vec!["v1", "v2"]);
}

#[test]
fn test_merge_with_cli_defaults() {
    let config = Config::default();
    let merged = config.merge_with_cli(default_cli(Commands::Pin));
    assert_eq!(merged.github_url, "https://api.github.com");
}

#[test]
fn test_merge_with_cli_overrides() {
    let config = Config {
        workflows: Some(vec!["config_wf".to_string()]),
        yes: Some(true),
        quiet: Some(true),
        verbose: Some(true),
        dry_run: Some(true),
        github_token: Some("config_token".into()),
        github_url: Some("https://config.github.com".into()),
        upgrade_strategy: Some(UpgradeStrategy::Major),
        concurrency: Some(10),
        ignore: Some(vec!["ignore1".into()]),
        vetted: Some(vec!["vet1".into()]),
        compromised: Some(vec!["comp1".into()]),
        ..Default::default()
    };
    let cli = default_cli(Commands::Upgrade {
        interactive: false,
        upgrade_strategy: UpgradeStrategy::Latest,
    });
    let merged = config.merge_with_cli(cli);
    assert_eq!(merged.workflows, vec!["config_wf".to_string()]);
    assert!(merged.yes);
    assert!(merged.quiet);
    assert!(merged.verbose);
    assert!(merged.dry_run);
    assert_eq!(merged.github_token, Some("config_token".into()));
    assert_eq!(merged.github_url, "https://config.github.com");
    if let Commands::Upgrade {
        upgrade_strategy, ..
    } = merged.command
    {
        assert_eq!(upgrade_strategy, UpgradeStrategy::Major);
    } else {
        panic!("Expected Commands::Upgrade");
    }
    assert_eq!(merged.concurrency, Some(10));
    assert_eq!(merged.ignore, vec!["ignore1".to_string()]);
}

#[test]
fn test_cli_precedence() {
    let config = Config {
        workflows: Some(vec!["config_wf".to_string()]),
        yes: Some(false),
        github_token: Some("config_token".into()),
        github_url: Some("https://config.github.com".into()),
        ..Default::default()
    };
    let mut cli = default_cli(Commands::Upgrade {
        interactive: false,
        upgrade_strategy: UpgradeStrategy::Commit,
    });
    cli.workflows = vec!["cli_wf".to_string()];
    cli.yes = true;
    cli.github_token = Some("cli_token".into());
    cli.github_url = "https://cli.github.com".to_string();
    let merged = config.merge_with_cli(cli);
    assert_eq!(merged.workflows, vec!["cli_wf".to_string()]);
    assert!(merged.yes);
    assert_eq!(merged.github_token, Some("cli_token".into()));
    assert_eq!(merged.github_url, "https://cli.github.com");
    if let Commands::Upgrade {
        upgrade_strategy, ..
    } = merged.command
    {
        assert_eq!(upgrade_strategy, UpgradeStrategy::Commit);
    } else {
        panic!("Expected Commands::Upgrade");
    }
}

#[test]
fn test_config_offline_merging() {
    let config = Config {
        offline: Some(true),
        ..Default::default()
    };
    let merged = config.merge_with_cli(default_cli(Commands::Pin));
    assert!(merged.offline);
}

#[test]
fn test_merge_with_cli_other_fields() {
    let config = Config {
        check_osv: Some(true),
        strict: Some(true),
        bitbucket_url: Some("https://my-bitbucket".to_string()),
        gitlab_url: Some("https://my-gitlab".to_string()),
        forgejo_url: Some("https://my-forgejo".to_string()),
        circleci_url: Some("https://my-circleci".to_string()),
        format: Some(OutputFormat::Json),
        ..Default::default()
    };
    let cli = default_cli(Commands::Verify {
        check_osv: false,
        strict: false,
    });
    let merged = config.merge_with_cli(cli);
    if let Commands::Verify { check_osv, strict } = merged.command {
        assert!(check_osv);
        assert!(strict);
    } else {
        panic!("Expected Commands::Verify");
    }
    assert_eq!(merged.bitbucket_url, "https://my-bitbucket");
    assert_eq!(merged.gitlab_url, "https://my-gitlab");
    assert_eq!(merged.forgejo_url, "https://my-forgejo");
    assert_eq!(merged.circleci_url, "https://my-circleci");
    assert_eq!(merged.format, OutputFormat::Json);
}

#[test]
fn test_merge_cache_settings() {
    let config = Config {
        no_cache: Some(true),
        cache_ttl: Some(7200),
        ..Default::default()
    };
    let merged = config.merge_with_cli(default_cli(Commands::Pin));
    assert!(merged.no_cache);
    assert_eq!(merged.cache_ttl, Some(7200));
}

#[test]
fn test_to_formatted_string() {
    let config = Config {
        vetted: Some(vec![
            SecurityEntry {
                reference: "actions/checkout@df4cb1c069e1874edd31b4311f1884172cec0e10".to_string(),
                tag: Some("v6.0.3".to_string()),
                timestamp: Some("2026-06-19T08:37:29Z".to_string()),
            },
            SecurityEntry {
                reference:
                    "taiki-e/create-gh-release-action@eba8ea96c86cca8a37f1b56e94b4d13301fba651"
                        .to_string(),
                tag: Some("v1.11.0".to_string()),
                timestamp: Some("2026-06-19T08:37:29Z".to_string()),
            },
        ]),
        yes: Some(false),
        concurrency: Some(10),
        ..Default::default()
    };

    let toml_str = config.to_formatted_string("yes = false\nconcurrency = 10".to_string());
    assert!(toml_str.contains("vetted = ["));
    assert!(toml_str.contains("ref = \"actions/checkout@df4cb1c069e1874edd31b4311f1884172cec0e10\""));
    assert!(toml_str.contains("tag = \"v6.0.3\""));
    assert!(toml_str.contains("timestamp = \"2026-06-19T08:37:29Z\""));
    assert!(!toml_str.contains("[[vetted]]"));
    assert!(toml_str.starts_with("yes = false\nconcurrency = 10\n\nvetted = [\n"));
}

#[test]
fn format_security_list_layout() {
    assert_eq!(format_security_list(&vec![]), "[]");
    let list = vec![
        SecurityEntry::from("a@1"),
        SecurityEntry {
            reference: "b@2".to_string(),
            tag: Some("v2".to_string()),
            timestamp: None,
        },
    ];
    assert_eq!(
        format_security_list(&list),
        "[\n    { ref = \"a@1\" },\n    { ref = \"b@2\", tag = \"v2\" }\n]"
    );
}

#[test]
fn formatted_string_with_both_lists_and_empty_base() {
    let config = Config {
        vetted: Some(vec![]),
        compromised: Some(vec![SecurityEntry::from("bad@1")]),
        ..Default::default()
    };
    assert_eq!(
        config.to_formatted_string(String::new()),
        "vetted = []\n\ncompromised = [\n    { ref = \"bad@1\" }\n]\n"
    );
}

#[test]
fn merging_the_same_configuration_twice_changes_nothing() {
    let mut other = Config::default();
    other.quiet = Some(true);
    other.vetted = Some(vec![SecurityEntry::from("a/b@s1".to_string()), SecurityEntry::from("a/b@s1".to_string())]);
    other.compromised = Some(vec![SecurityEntry::from("c/d@s2".to_string())]);
    let mut cfg = Config::default();
    cfg.vetted = Some(vec![SecurityEntry::from("x/y@s0".to_string())]);
    cfg.merge_all(other.clone());
    let once = cfg.clone();
    cfg.merge_all(other.clone());
    assert_eq!(cfg.vetted, once.vetted);
    assert_eq!(cfg.compromised, once.compromised);
    assert_eq!(cfg.quiet, once.quiet);
    assert_eq!(cfg.vetted.as_ref().unwrap().len(), 2);
    cfg.merge_lists(other);
    assert_eq!(cfg.vetted, once.vetted);
}
