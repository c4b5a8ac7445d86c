//! The initial configuration of a repository, and the git hook that runs
//! verification before each commit.
use crate::text::{concat, owned};
use vstd::prelude::*;

verus! {

/// What the executable found in the working directory.
#[derive(Debug, Clone, Copy, PartialEq, Eq, Structural)]
pub struct ProjectLayout {
    /// `.github/workflows` exists.
    pub github: bool,
    /// `.gitlab-ci.yml` exists.
    pub gitlab: bool,
    /// `bitbucket-pipelines.yml` or `.yaml` exists.
    pub bitbucket: bool,
    /// `.forgejo/workflows` exists.
    pub forgejo: bool,
    /// `.circleci/config.yml` exists.
    pub circleci: bool,
    /// `.pinner.toml` exists already.
    pub config_exists: bool,
}

/// The CI systems found, by name, in a fixed order.
pub open spec fn detected_names(l: ProjectLayout) -> Seq<Seq<char>> {
    let a: Seq<Seq<char>> = if l.github { seq!["GitHub Actions"@] } else { Seq::empty() };
    let b: Seq<Seq<char>> = if l.gitlab { seq!["GitLab CI"@] } else { Seq::empty() };
    let c: Seq<Seq<char>> = if l.bitbucket { seq!["Bitbucket Pipelines"@] } else { Seq::empty() };
    let d: Seq<Seq<char>> = if l.forgejo { seq!["Forgejo/Gitea"@] } else { Seq::empty() };
    let e: Seq<Seq<char>> = if l.circleci { seq!["CircleCI"@] } else { Seq::empty() };
    a + b + c + d + e
}

/// Names the CI systems found (see [`detected_names`]).
pub fn detected_systems(layout: &ProjectLayout) -> (r: Vec<String>)
    ensures
        r@.map_values(|s: String| s@) == detected_names(*layout),
{
    let mut v: Vec<String> = Vec::new();
    if layout.github {
        v.push(owned("GitHub Actions"));
    }
    if layout.gitlab {
        v.push(owned("GitLab CI"));
    }
    if layout.bitbucket {
        v.push(owned("Bitbucket Pipelines"));
    }
    if layout.forgejo {
        v.push(owned("Forgejo/Gitea"));
    }
    if layout.circleci {
        v.push(owned("CircleCI"));
    }
    assert(v@.map_values(|s: String| s@) =~= detected_names(*layout));
    v
}

/// The lines of the initial configuration; selection 1 pre-populates the
/// vetted list with popular GitHub Actions, anything else leaves it empty.
pub open spec fn config_lines(selection: usize) -> Seq<Seq<char>> {
    let head = seq![
        "# Pinner configuration file"@,
        "# For full documentation, see: https://github.com/ffalcinelli/pinner"@,
        ""@,
        "# Automatically confirm all replacements"@,
        "yes = false"@,
        ""@,
        "# Upgrade strategy: latest, major, minor, commit"@,
        "upgrade_strategy = \"latest\""@,
        ""@,
        "# Actions or images to ignore"@,
        "ignore = []"@,
        ""@,
        "# Number of concurrent API requests"@,
        "concurrency = 10"@,
        ""@,
        "# Vetted (trusted) dependency hashes or references (Whitelist)"@
    ];
    let vetted = if selection == 1 {
        seq![
            "vetted = ["@,
            "    \"actions/checkout@692973e3d937129bcbf40652eb9f2f61becf3332\", # v4.1.7"@,
            "    \"actions/setup-node@601291da96165b6a1d4b1fb337131252d6e2735d\", # v4.0.3"@,
            "    \"actions/setup-python@82c7e60c44059a00283f090ceb68f6854d17dcef\", # v5.1.0"@,
            "    \"actions/setup-go@cd9a547d6d5b9454b6754024774b752817bf0a26\", # v5.0.2"@,
            "    \"actions/cache@0c45773b623bea8c8e75f6c82b208c3cf94ea4f9\", # v4.0.2"@,
            "    \"actions/upload-artifact@65462800fd760344b1a7b4382951275a0abb4808\", # v4.3.3"@,
            "    \"actions/download-artifact@65a9edc5881444af0b9093a5e628f2fe47ea3d2e\"  # v4.1.7"@,
            "]"@
        ]
    } else {
        seq![
            "vetted = ["@,
            "    # \"actions/checkout@692973e3d937129bcbf40652eb9f2f61becf3332\", # Example vetted action"@,
            "]"@
        ]
    };
    let tail = seq![
        ""@,
        "# Compromised dependency hashes or references (Blacklist)"@,
        "compromised = ["@,
        "    # \"actions/checkout@badhash1234567890badhash1234567890bad\", # Example compromised action"@,
        "]"@,
        ""@,
        "# Disable visual security feedback"@,
        "no_security_feedback = false"@
    ];
    head + vetted + tail
}

/// Texts joined by newlines.
pub open spec fn joined(ls: Seq<Seq<char>>) -> Seq<char>
    decreases ls.len(),
{
    if ls.len() == 0 {
        Seq::empty()
    } else if ls.len() == 1 {
        ls[0]
    } else {
        joined(ls.drop_last()) + "\n"@ + ls.last()
    }
}

fn join_lines(ls: &Vec<&str>) -> (r: String)
    ensures
        r@ == joined(ls@.map_values(|s: &str| s@)),
{
    let ghost lv = ls@.map_values(|s: &str| s@);
    if ls.len() == 0 {
        return String::new();
    }
    let mut out = owned(ls[0]);
    assert(lv.take(1) =~= seq![lv[0]]);
    let mut i: usize = 1;
    while i < ls.len()
        invariant
            1 <= i <= ls.len(),
            lv == ls@.map_values(|s: &str| s@),
            out@ == joined(lv.take(i as int)),
        decreases ls.len() - i,
    {
        assert(lv.take(i + 1).drop_last() =~= lv.take(i as int));
        assert(lv.take(i + 1).last() == ls@[i as int]@);
        let a = concat(out.as_str(), "\n");
        out = concat(a.as_str(), ls[i]);
        i = i + 1;
    }
    assert(lv.take(ls.len() as int) =~= lv);
    out
}

/// The text of the initial `.pinner.toml` (see [`config_lines`]).
pub fn initial_config(selection: usize) -> (r: String)
    ensures
        r@ == joined(config_lines(selection)),
{
    let mut ls: Vec<&str> = vec![
        "# Pinner configuration file",
        "# For full documentation, see: https://github.com/ffalcinelli/pinner",
        "",
        "# Automatically confirm all replacements",
        "yes = false",
        "",
        "# Upgrade strategy: latest, major, minor, commit",
        "upgrade_strategy = \"latest\"",
        "",
        "# Actions or images to ignore",
        "ignore = []",
        "",
        "# Number of concurrent API requests",
        "concurrency = 10",
        "",
        "# Vetted (trusted) dependency hashes or references (Whitelist)",
    ];
    if selection == 1 {
        ls.push("vetted = [");
        ls.push("    \"actions/checkout@692973e3d937129bcbf40652eb9f2f61becf3332\", # v4.1.7");
        ls.push("    \"actions/setup-node@601291da96165b6a1d4b1fb337131252d6e2735d\", # v4.0.3");
        ls.push("    \"actions/setup-python@82c7e60c44059a00283f090ceb68f6854d17dcef\", # v5.1.0");
        ls.push("    \"actions/setup-go@cd9a547d6d5b9454b6754024774b752817bf0a26\", # v5.0.2");
        ls.push("    \"actions/cache@0c45773b623bea8c8e75f6c82b208c3cf94ea4f9\", # v4.0.2");
        ls.push("    \"actions/upload-artifact@65462800fd760344b1a7b4382951275a0abb4808\", # v4.3.3");
        ls.push("    \"actions/download-artifact@65a9edc5881444af0b9093a5e628f2fe47ea3d2e\"  # v4.1.7");
        ls.push("]");
    } else {
        ls.push("vetted = [");
        ls.push("    # \"actions/checkout@692973e3d937129bcbf40652eb9f2f61becf3332\", # Example vetted action");
        ls.push("]");
    }
    ls.push("");
    ls.push("# Compromised dependency hashes or references (Blacklist)");
    ls.push("compromised = [");
    ls.push("    # \"actions/checkout@badhash1234567890badhash1234567890bad\", # Example compromised action");
    ls.push("]");
    ls.push("");
    ls.push("# Disable visual security feedback");
    ls.push("no_security_feedback = false");
    assert(ls@.map_values(|s: &str| s@) =~= config_lines(selection));
    join_lines(&ls)
}

/// What initialising a project does: the CI systems it reports, and the
/// configuration text to write (none when `.pinner.toml` exists already).
pub fn init_project_with_selection(layout: &ProjectLayout, selection: usize) -> (r: (Vec<String>, Option<String>))
    ensures
        r.0@.map_values(|s: String| s@) == detected_names(*layout),
        layout.config_exists ==> r.1 is None,
        !layout.config_exists ==> (r.1 matches Some(c) && c@ == joined(config_lines(selection))),
{
    let detected = detected_systems(layout);
    if layout.config_exists {
        (detected, None)
    } else {
        (detected, Some(initial_config(selection)))
    }
}

/// What initialising a project does when the vetted list is picked in a
/// dialog: `answer` is the option picked, or `None` when the dialog could
/// not be shown, in which case the list starts empty.
pub fn init_project(layout: &ProjectLayout, answer: Option<usize>) -> (r: (Vec<String>, Option<String>))
    ensures
        r.0@.map_values(|s: String| s@) == detected_names(*layout),
        layout.config_exists ==> r.1 is None,
        !layout.config_exists ==> (r.1 matches Some(c) && c@ == joined(config_lines(
            match answer {
                Some(a) => a,
                None => 0,
            },
        ))),
{
    let selection = match answer {
        Some(a) => a,
        None => 0,
    };
    init_project_with_selection(layout, selection)
}

/// The pre-commit hook that runs `pinner verify --quiet`.
pub open spec fn hook_script() -> Seq<char> {
    "#!/bin/sh\n# Pinner pre-commit hook: Verify that all actions are pinned to a SHA.\npinner verify --quiet\n"@
}

/// The text of the pre-commit hook (see [`hook_script`]).
pub fn hook_content() -> (r: String)
    ensures
        r@ == hook_script(),
{
    owned("#!/bin/sh\n# Pinner pre-commit hook: Verify that all actions are pinned to a SHA.\npinner verify --quiet\n")
}

} // verus!
