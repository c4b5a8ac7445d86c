//! The command-line options of Pinner, as plain values.
//!
//! Argument parsing itself happens in the executable; the library only sees the
//! parsed options.
use vstd::prelude::*;

verus! {

/// Strategy for upgrading actions to newer versions.
///
/// It determines which tags are considered "newer" during an upgrade operation.
#[derive(Clone, Copy, Debug, PartialEq, Eq, Structural)]
pub enum UpgradeStrategy {
    /// Upgrade to the latest available version (default).
    Latest,
    /// Upgrade only within the current major version (e.g., v1.x.x -> v1.y.y).
    Major,
    /// Upgrade only within the current minor version (e.g., v1.1.x -> v1.1.y).
    Minor,
    /// Upgrade to the latest commit on the default branch (ignoring tags).
    Commit,
}

/// Format for the output results.
#[derive(Clone, Copy, Debug, PartialEq, Eq, Structural)]
pub enum OutputFormat {
    /// Standard text output with colors and diffs (default).
    Text,
    /// Machine-readable JSON format.
    Json,
    /// Markdown table format suitable for PR comments.
    Markdown,
    /// GitHub Actions workflow annotations.
    Github,
    /// JUnit XML report.
    Junit,
}

/// Subcommands of the Pinner CLI.
#[derive(Clone, Debug, PartialEq, Eq)]
pub enum Commands {
    /// Pin all actions to their current commit SHAs.
    Pin,
    /// Upgrade all actions to their latest releases.
    Upgrade { interactive: bool, upgrade_strategy: UpgradeStrategy },
    /// Verify that all actions are pinned to commit SHAs.
    Verify { check_osv: bool, strict: bool },
    /// Set a specific action to a specific commit SHA (the `set` subcommand).
    SetSha { action: String, hash: String },
    /// Install a pre-commit hook that runs pinner verify.
    InstallHook,
    /// Automatically initialize pinner configuration for this repository.
    Init,
    /// Export a Software Bill of Materials (SBOM).
    ExportSbom,
    /// Scan workflows and query OSV to identify compromised dependencies.
    Scan { upgrade_strategy: UpgradeStrategy },
    /// Generate shell completions (for the named shell, if any).
    GenerateCompletion { shell: Option<String> },
}

/// The parsed command line.
#[derive(Clone, Debug)]
pub struct Cli {
    /// Subcommand to execute.
    pub command: Commands,
    /// Workflow files or directories to process.
    pub workflows: Vec<String>,
    /// Automatically confirm all replacements without prompting.
    pub yes: bool,
    /// Suppress all console output except for critical errors.
    pub quiet: bool,
    /// Print verbose output for debugging.
    pub verbose: bool,
    /// Disable persistent disk caching.
    pub no_cache: bool,
    /// Cache TTL in seconds.
    pub cache_ttl: Option<u64>,
    /// Force offline mode, preventing any network requests.
    pub offline: bool,
    /// Print what would be changed without actually modifying any files.
    pub dry_run: bool,
    /// GitHub API Token for authentication.
    pub github_token: Option<String>,
    /// Bitbucket API Token for authentication.
    pub bitbucket_token: Option<String>,
    /// GitLab API Token for authentication.
    pub gitlab_token: Option<String>,
    /// Forgejo/Gitea API Token for authentication.
    pub forgejo_token: Option<String>,
    /// CircleCI API Token for authentication.
    pub circleci_token: Option<String>,
    /// Output results in the specified format.
    pub format: OutputFormat,
    /// Base URL for the GitHub API.
    pub github_url: String,
    /// Base URL for the Bitbucket API.
    pub bitbucket_url: String,
    /// Base URL for the GitLab API.
    pub gitlab_url: String,
    /// Base URL for the Forgejo/Gitea API.
    pub forgejo_url: String,
    /// Base URL for the CircleCI GraphQL API.
    pub circleci_url: String,
    /// Number of concurrent API requests to make.
    pub concurrency: Option<usize>,
    /// Actions or images to ignore.
    pub ignore: Vec<String>,
    /// Username for OCI registry authentication.
    pub oci_username: Option<String>,
    /// Password for OCI registry authentication.
    pub oci_password: Option<String>,
}

impl Cli {
    /// Returns true if the quiet flag is set.
    pub fn quiet(&self) -> (r: bool)
        ensures
            r == self.quiet,
    {
        self.quiet
    }
}

/// The public GitHub API, the default of `--github-url`.
pub open spec fn default_github_url() -> Seq<char> {
    "https://api.github.com"@
}

/// The public Bitbucket API, the default of `--bitbucket-url`.
pub open spec fn default_bitbucket_url() -> Seq<char> {
    "https://api.bitbucket.org/2.0"@
}

/// The public GitLab instance, the default of `--gitlab-url`.
pub open spec fn default_gitlab_url() -> Seq<char> {
    "https://gitlab.com"@
}

/// Codeberg, the default of `--forgejo-url`.
pub open spec fn default_forgejo_url() -> Seq<char> {
    "https://codeberg.org"@
}

/// The CircleCI GraphQL API, the default of `--circleci-url`.
pub open spec fn default_circleci_url() -> Seq<char> {
    "https://circleci.com/graphql-unstable"@
}

} // verus!
