//! The settings of one run of Pinner, derived from the command line and the
//! configurations.
use crate::cli::{Commands, OutputFormat, UpgradeStrategy};
use crate::config::Config;
use crate::domain::update::VerificationResult;
use crate::error::PinnerError;
use crate::scanner::parser::{file_name, path_file_name};
use crate::text::{chars_of, contains, contains_exec, owned, str_eq};
use vstd::prelude::*;

verus! {

/// Commands that need the network refuse offline mode: verification with the
/// OSV check, and the security scan.
pub open spec fn offline_refusal(offline: bool, cmd: Commands) -> Option<Seq<char>> {
    if !offline {
        None
    } else {
        match cmd {
            Commands::Verify { check_osv: true, .. } => Some("Cannot check OSV when offline mode is enabled"@),
            Commands::Scan { .. } => Some("Cannot run scan in offline mode"@),
            _ => None,
        }
    }
}

/// Refuses a command that cannot run offline with a configuration error (see
/// [`offline_refusal`]).
pub fn check_offline(offline: bool, command: &Commands) -> (r: Result<(), PinnerError>)
    ensures
        match offline_refusal(offline, *command) {
            Some(m) => r matches Err(PinnerError::Config(e)) && e@ == m,
            None => r is Ok,
        },
{
    if !offline {
        return Ok(());
    }
    match command {
        Commands::Verify { check_osv: true, .. } => Err(PinnerError::Config(owned("Cannot check OSV when offline mode is enabled"))),
        Commands::Scan { .. } => Err(PinnerError::Config(owned("Cannot run scan in offline mode"))),
        _ => Ok(()),
    }
}

/// The upgrade strategy of a command: its own for `upgrade` and `scan`,
/// `latest` otherwise.
pub open spec fn strategy_of(cmd: Commands) -> UpgradeStrategy {
    match cmd {
        Commands::Upgrade { upgrade_strategy, .. } => upgrade_strategy,
        Commands::Scan { upgrade_strategy } => upgrade_strategy,
        _ => UpgradeStrategy::Latest,
    }
}

/// The upgrade strategy of a command (see [`strategy_of`]).
pub fn upgrade_strategy(command: &Commands) -> (r: UpgradeStrategy)
    ensures
        r == strategy_of(*command),
{
    match command {
        Commands::Upgrade { upgrade_strategy, .. } => *upgrade_strategy,
        Commands::Scan { upgrade_strategy } => *upgrade_strategy,
        _ => UpgradeStrategy::Latest,
    }
}

/// `list` followed by each item of `extra`, in order, that neither the list
/// built so far nor `blocked` holds.
pub open spec fn extend_unless(list: Seq<Seq<char>>, extra: Seq<Seq<char>>, blocked: Seq<Seq<char>>) -> Seq<Seq<char>>
    decreases extra.len(),
{
    if extra.len() == 0 {
        list
    } else {
        let prev = extend_unless(list, extra.drop_last(), blocked);
        let x = extra.last();
        if prev.contains(x) || blocked.contains(x) {
            prev
        } else {
            prev.push(x)
        }
    }
}

/// The vetted and compromised references of a run. The local lists come
/// first; a global vetted reference is added unless the local configuration
/// calls it compromised, and a global compromised reference unless it is
/// vetted by then.
pub open spec fn security_lists(
    local_vetted: Seq<Seq<char>>,
    local_compromised: Seq<Seq<char>>,
    global_vetted: Seq<Seq<char>>,
    global_compromised: Seq<Seq<char>>,
) -> (Seq<Seq<char>>, Seq<Seq<char>>) {
    let vetted = extend_unless(local_vetted, global_vetted, local_compromised);
    (vetted, extend_unless(local_compromised, global_compromised, vetted))
}

pub open spec fn views(v: Seq<String>) -> Seq<Seq<char>> {
    v.map_values(|s: String| s@)
}

fn holds(list: &Vec<String>, x: &String) -> (r: bool)
    ensures
        r == views(list@).contains(x@),
{
    let ghost lv = views(list@);
    let mut i: usize = 0;
    while i < list.len()
        invariant
            0 <= i <= list.len(),
            lv == views(list@),
            forall|j: int| 0 <= j < i ==> lv[j] != x@,
        decreases list.len() - i,
    {
        if str_eq(list[i].as_str(), x.as_str()) {
            assert(lv[i as int] == x@);
            return true;
        }
        i = i + 1;
    }
    false
}

fn extend_list(list: &mut Vec<String>, extra: Vec<String>, blocked: &Vec<String>)
    ensures
        views(final(list)@) == extend_unless(views(old(list)@), views(extra@), views(blocked@)),
{
    let ghost start = views(list@);
    let ghost all = views(extra@);
    let mut rest = extra;
    let n = rest.len();
    let mut k: usize = 0;
    while k < n
        invariant
            n == all.len(),
            0 <= k <= n,
            views(rest@) == all.skip(k as int),
            rest@.len() == n - k,
            views(list@) == extend_unless(start, all.take(k as int), views(blocked@)),
        decreases n - k,
    {
        let ghost r0 = rest@;
        assert(views(r0)[0] == r0[0]@);
        let x = rest.remove(0);
        assert forall|j: int| 0 <= j < rest@.len() implies views(rest@)[j] == all.skip(k + 1)[j] by {
            assert(rest@[j] == r0[j + 1]);
            assert(views(r0)[j + 1] == r0[j + 1]@);
        }
        assert(views(rest@) =~= all.skip(k + 1));
        assert(all.take(k + 1).drop_last() =~= all.take(k as int));
        assert(all.take(k + 1).last() == x@) by {
            assert(all.skip(k as int)[0] == x@);
        }
        if !holds(list, &x) && !holds(blocked, &x) {
            let ghost before = views(list@);
            list.push(x);
            assert(views(list@) =~= before.push(x@));
        }
        k = k + 1;
    }
    assert(all.take(n as int) =~= all);
}

/// Combines the local and global vetted and compromised references (see
/// [`security_lists`]).
pub fn combine_security_lists(
    local_vetted: Vec<String>,
    local_compromised: Vec<String>,
    global_vetted: Vec<String>,
    global_compromised: Vec<String>,
) -> (r: (Vec<String>, Vec<String>))
    ensures
        (views(r.0@), views(r.1@)) == security_lists(
            views(local_vetted@),
            views(local_compromised@),
            views(global_vetted@),
            views(global_compromised@),
        ),
{
    let mut vetted = local_vetted;
    extend_list(&mut vetted, global_vetted, &local_compromised);
    let mut compromised = local_compromised;
    extend_list(&mut compromised, global_compromised, &vetted);
    (vetted, compromised)
}

proof fn lemma_extend_unless_keeps(list: Seq<Seq<char>>, extra: Seq<Seq<char>>, blocked: Seq<Seq<char>>, x: Seq<char>)
    ensures
        extend_unless(list, extra, blocked).contains(x) <==> (list.contains(x) || (extra.contains(x) && !blocked.contains(x))),
    decreases extra.len(),
{
    if extra.len() > 0 {
        let init = extra.drop_last();
        lemma_extend_unless_keeps(list, init, blocked, x);
        let prev = extend_unless(list, init, blocked);
        if extra.contains(x) && !init.contains(x) {
            assert(extra.last() == x) by {
                let i = choose|i: int| 0 <= i < extra.len() && extra[i] == x;
                if i < extra.len() - 1 {
                    assert(init[i] == x);
                }
            }
        }
        if init.contains(x) {
            let i = choose|i: int| 0 <= i < init.len() && init[i] == x;
            assert(extra[i] == x);
        }
        if !prev.contains(extra.last()) && !blocked.contains(extra.last()) {
            assert(prev.push(extra.last()).last() == extra.last());
            if prev.contains(x) {
                let i = choose|i: int| 0 <= i < prev.len() && prev[i] == x;
                assert(prev.push(extra.last())[i] == x);
            }
            if prev.push(extra.last()).contains(x) && x != extra.last() {
                let i = choose|i: int| 0 <= i < prev.len() + 1 && prev.push(extra.last())[i] == x;
                assert(prev[i] == x);
            }
        }
    }
}

/// The local configuration wins: a reference it calls compromised is never
/// vetted by the global configuration, and a reference it vets is never
/// called compromised by the global one; every local entry stays.
pub proof fn lemma_local_lists_win(
    local_vetted: Seq<Seq<char>>,
    local_compromised: Seq<Seq<char>>,
    global_vetted: Seq<Seq<char>>,
    global_compromised: Seq<Seq<char>>,
    x: Seq<char>,
)
    ensures
        ({
            let (v, c) = security_lists(local_vetted, local_compromised, global_vetted, global_compromised);
            &&& local_compromised.contains(x) && !local_vetted.contains(x) ==> !v.contains(x)
            &&& local_vetted.contains(x) && !local_compromised.contains(x) ==> !c.contains(x)
            &&& local_vetted.contains(x) ==> v.contains(x)
            &&& local_compromised.contains(x) ==> c.contains(x)
            &&& v.contains(x) <==> (local_vetted.contains(x) || (global_vetted.contains(x) && !local_compromised.contains(x)))
        }),
{
    let v = extend_unless(local_vetted, global_vetted, local_compromised);
    lemma_extend_unless_keeps(local_vetted, global_vetted, local_compromised, x);
    lemma_extend_unless_keeps(local_compromised, global_compromised, v, x);
}

/// The cache lifetime in seconds: none without the cache, else the
/// configured one or an hour.
pub open spec fn cache_seconds(no_cache: bool, ttl: Option<u64>) -> u64 {
    if no_cache {
        0
    } else {
        match ttl {
            Some(t) => t,
            None => 3600,
        }
    }
}

/// The cache lifetime in seconds (see [`cache_seconds`]).
pub fn cache_ttl_secs(no_cache: bool, ttl: Option<u64>) -> (r: u64)
    ensures
        r == cache_seconds(no_cache, ttl),
{
    if no_cache {
        0
    } else {
        match ttl {
            Some(t) => t,
            None => 3600,
        }
    }
}

/// The concurrency of a run: the given one or 10.
pub fn default_concurrency(concurrency: Option<usize>) -> (r: usize)
    ensures
        r == match concurrency {
            Some(c) => c,
            None => 10,
        },
{
    match concurrency {
        Some(c) => c,
        None => 10,
    }
}

/// A failed verification ends the run with an error.
pub fn verification_outcome(result: &VerificationResult) -> (r: Result<(), PinnerError>)
    ensures
        result.unpinned@.len() == 0 && result.compromised@.len() == 0 && result.non_vetted@.len()
            == 0 <==> r is Ok,
        r matches Err(e) ==> e matches PinnerError::VerificationFailed(m) && m@
            == "Some actions are not pinned to a SHA, are compromised, or are not vetted"@,
{
    if result.is_success() {
        Ok(())
    } else {
        Err(PinnerError::VerificationFailed(owned("Some actions are not pinned to a SHA, are compromised, or are not vetted")))
    }
}

/// Options given on the command line for one run.
pub struct OperationsOptions {
    pub yes: bool,
    pub quiet: bool,
    pub dry_run: bool,
    pub format: OutputFormat,
    pub upgrade_strategy: UpgradeStrategy,
    pub concurrency: Option<usize>,
    pub ignore: Vec<String>,
}

/// The configuration after the command-line options: a given concurrency
/// replaces the configured one, and given ignore entries are appended to the
/// configured ones.
pub fn apply_options(config: Config, options: OperationsOptions) -> (r: Config)
    ensures
        r.concurrency == (match options.concurrency {
            Some(c) => Some(c),
            None => config.concurrency,
        }),
        options.ignore@.len() == 0 ==> r.ignore == config.ignore,
        options.ignore@.len() > 0 ==> (r.ignore matches Some(v) && v@ == match config.ignore {
            Some(w) => w@,
            None => Seq::empty(),
        } + options.ignore@),
        r.vetted == config.vetted,
        r.compromised == config.compromised,
        r.workflows == config.workflows,
        r.upgrade_strategy == config.upgrade_strategy,
{
    let mut config = config;
    match options.concurrency {
        Some(c) => {
            config.concurrency = Some(c);
        },
        None => {},
    }
    if options.ignore.len() > 0 {
        let mut base = match config.ignore.take() {
            Some(w) => w,
            None => Vec::new(),
        };
        let mut extra = options.ignore;
        base.append(&mut extra);
        config.ignore = Some(base);
    }
    config
}

/// The workflow locations looked for when none are given, in order.
pub open spec fn default_locations() -> Seq<Seq<char>> {
    seq![
        ".github/workflows"@,
        "bitbucket-pipelines.yml"@,
        "bitbucket-pipelines.yaml"@,
        ".gitlab-ci.yml"@,
        ".circleci/config.yml"@,
        ".travis.yml"@,
        "appveyor.yml"@,
        ".forgejo/workflows"@
    ]
}

/// The workflow locations looked for when none are given (see
/// [`default_locations`]); the executable reports which of them exist.
pub fn default_workflow_locations() -> (r: Vec<String>)
    ensures
        r@.map_values(|s: String| s@) == default_locations(),
{
    let v = vec![
        owned(".github/workflows"),
        owned("bitbucket-pipelines.yml"),
        owned("bitbucket-pipelines.yaml"),
        owned(".gitlab-ci.yml"),
        owned(".circleci/config.yml"),
        owned(".travis.yml"),
        owned("appveyor.yml"),
        owned(".forgejo/workflows"),
    ];
    assert(v@.map_values(|s: String| s@) =~= default_locations());
    v
}

/// The default locations that exist, in order.
pub open spec fn existing_defaults(exists: Seq<bool>, n: int) -> Seq<Seq<char>>
    decreases n,
{
    if n <= 0 {
        Seq::empty()
    } else if exists[n - 1] {
        existing_defaults(exists, n - 1).push(default_locations()[n - 1])
    } else {
        existing_defaults(exists, n - 1)
    }
}

/// The locations other than `bitbucket-pipelines.yaml`, in order.
pub open spec fn without_yaml_pipelines(s: Seq<Seq<char>>) -> Seq<Seq<char>>
    decreases s.len(),
{
    if s.len() == 0 {
        s
    } else if s.last() == "bitbucket-pipelines.yaml"@ {
        without_yaml_pipelines(s.drop_last())
    } else {
        without_yaml_pipelines(s.drop_last()).push(s.last())
    }
}

/// The workflows to process: those given; else the default locations that
/// exist, without `bitbucket-pipelines.yaml` when the `.yml` one exists too;
/// else `.github/workflows`.
pub open spec fn workflows_of(given: Seq<Seq<char>>, exists: Seq<bool>) -> Seq<Seq<char>> {
    if given.len() > 0 {
        given
    } else {
        let found = existing_defaults(exists, 8);
        let kept = if exists[1] {
            without_yaml_pipelines(found)
        } else {
            found
        };
        if kept.len() == 0 {
            seq![".github/workflows"@]
        } else {
            kept
        }
    }
}

/// The workflows to process (see [`workflows_of`]); `exists[i]` tells
/// whether the `i`-th default location exists.
pub fn get_workflows(given: Vec<String>, exists: &Vec<bool>) -> (r: Vec<String>)
    requires
        exists.len() == 8,
    ensures
        r@.map_values(|s: String| s@) == workflows_of(given@.map_values(|s: String| s@), exists@),
{
    if given.len() > 0 {
        return given;
    }
    let defaults = default_workflow_locations();
    let ghost dv = defaults@.map_values(|s: String| s@);
    let mut found: Vec<String> = Vec::new();
    let mut i: usize = 0;
    assert(defaults@.len() == dv.len());
    while i < 8
        invariant
            0 <= i <= 8,
            exists.len() == 8,
            defaults.len() == 8,
            dv == defaults@.map_values(|s: String| s@),
            dv == default_locations(),
            found@.map_values(|s: String| s@) == existing_defaults(exists@, i as int),
        decreases 8 - i,
    {
        if exists[i] {
            let ghost before = found@.map_values(|s: String| s@);
            assert(defaults@[i as int]@ == dv[i as int]);
            found.push(defaults[i].clone());
            assert(found@.map_values(|s: String| s@) =~= before.push(dv[i as int]));
        }
        i = i + 1;
    }
    let ghost fv = found@.map_values(|s: String| s@);
    let mut kept: Vec<String> = Vec::new();
    if exists[1] {
        let mut j: usize = 0;
        while j < found.len()
            invariant
                0 <= j <= found.len(),
                fv == found@.map_values(|s: String| s@),
                kept@.map_values(|s: String| s@) == without_yaml_pipelines(fv.take(j as int)),
            decreases found.len() - j,
        {
            let ghost before = kept@.map_values(|s: String| s@);
            assert(fv.take(j + 1).drop_last() =~= fv.take(j as int));
            assert(fv.take(j + 1).last() == found@[j as int]@);
            if !str_eq(found[j].as_str(), "bitbucket-pipelines.yaml") {
                kept.push(found[j].clone());
                assert(kept@.map_values(|s: String| s@) =~= before.push(fv[j as int]));
            }
            j = j + 1;
        }
        assert(fv.take(found.len() as int) =~= fv);
    } else {
        kept = found;
    }
    if kept.len() == 0 {
        let v = vec![owned(".github/workflows")];
        assert(v@.map_values(|s: String| s@) =~= seq![".github/workflows"@]);
        v
    } else {
        kept
    }
}

/// The shells completions can be written for.
#[derive(Debug, Clone, Copy, PartialEq, Eq, Structural)]
pub enum ShellKind {
    Bash,
    Zsh,
    Fish,
    Elvish,
    PowerShell,
}

/// The shell a `SHELL` path names, by the words its file name holds, in this
/// order: bash, zsh, fish, elvish, powershell or pwsh.
pub open spec fn shell_of(path: Seq<char>) -> Option<ShellKind> {
    match path_file_name(path) {
        Some(n) => if contains(n, "bash"@) {
            Some(ShellKind::Bash)
        } else if contains(n, "zsh"@) {
            Some(ShellKind::Zsh)
        } else if contains(n, "fish"@) {
            Some(ShellKind::Fish)
        } else if contains(n, "elvish"@) {
            Some(ShellKind::Elvish)
        } else if contains(n, "powershell"@) || contains(n, "pwsh"@) {
            Some(ShellKind::PowerShell)
        } else {
            None
        },
        None => None,
    }
}

/// Detects the shell from the value of `SHELL` (see [`shell_of`]).
pub fn detect_shell(shell_env: &str) -> (r: Option<ShellKind>)
    ensures
        r == shell_of(shell_env@),
{
    match file_name(shell_env) {
        Some(n) => {
            let v = chars_of(n.as_str());
            if contains_exec(&v, &chars_of("bash")) {
                Some(ShellKind::Bash)
            } else if contains_exec(&v, &chars_of("zsh")) {
                Some(ShellKind::Zsh)
            } else if contains_exec(&v, &chars_of("fish")) {
                Some(ShellKind::Fish)
            } else if contains_exec(&v, &chars_of("elvish")) {
                Some(ShellKind::Elvish)
            } else if contains_exec(&v, &chars_of("powershell")) || contains_exec(&v, &chars_of("pwsh")) {
                Some(ShellKind::PowerShell)
            } else {
                None
            }
        },
        None => None,
    }
}

} // verus!
