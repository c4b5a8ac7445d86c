//! Configuration of Pinner, and how it is merged with the command line.
//!
//! Reading the configuration files and the environment happens in the
//! executable; the library merges the values it is handed.
use crate::cli::{
    default_bitbucket_url, default_circleci_url, default_forgejo_url, default_github_url,
    default_gitlab_url, Cli, Commands, OutputFormat, UpgradeStrategy,
};
use crate::domain::update::opt_view;
use crate::text::{chars_of, concat, owned, str_eq};
use vstd::prelude::*;

verus! {

/// An entry in the vetted or compromised lists: a reference with an optional
/// tag and timestamp.
#[derive(Debug, Clone, PartialEq, Eq)]
pub struct SecurityEntry {
    /// The dependency reference (e.g. actions/checkout@sha).
    pub reference: String,
    /// The tag version (e.g. v4.1.7).
    pub tag: Option<String>,
    /// The timestamp of insertion.
    pub timestamp: Option<String>,
}

impl From<String> for SecurityEntry {
    fn from(s: String) -> (r: Self) {
        SecurityEntry { reference: s, tag: None, timestamp: None }
    }
}

impl vstd::std_specs::convert::FromSpecImpl<String> for SecurityEntry {
    open spec fn obeys_from_spec() -> bool {
        true
    }

    open spec fn from_spec(v: String) -> Self {
        SecurityEntry { reference: v, tag: None, timestamp: None }
    }
}

impl<'a> From<&'a str> for SecurityEntry {
    fn from(s: &'a str) -> (r: Self) {
        SecurityEntry { reference: s.to_owned(), tag: None, timestamp: None }
    }
}

/// A `String` cannot be built from a view in specifications, so conversions from
/// `&str` carry no spec; verified code uses `security_entry`.
impl<'a> vstd::std_specs::convert::FromSpecImpl<&'a str> for SecurityEntry {
    open spec fn obeys_from_spec() -> bool {
        false
    }

    open spec fn from_spec(v: &'a str) -> Self {
        vstd::pervasive::arbitrary()
    }
}

/// A bare reference, with no tag and no timestamp.
pub fn security_entry(s: &str) -> (r: SecurityEntry)
    ensures
        r.reference@ == s@,
        r.tag is None,
        r.timestamp is None,
{
    SecurityEntry { reference: s.to_owned(), tag: None, timestamp: None }
}

/// Configuration for Pinner, typically loaded from a file or environment.
/// Every option is absent unless a source sets it.
#[derive(Debug, Clone)]
pub struct Config {
    pub workflows: Option<Vec<String>>,
    pub yes: Option<bool>,
    pub quiet: Option<bool>,
    pub verbose: Option<bool>,
    pub dry_run: Option<bool>,
    pub github_token: Option<String>,
    pub bitbucket_token: Option<String>,
    pub gitlab_token: Option<String>,
    pub forgejo_token: Option<String>,
    pub circleci_token: Option<String>,
    pub format: Option<OutputFormat>,
    pub github_url: Option<String>,
    pub bitbucket_url: Option<String>,
    pub gitlab_url: Option<String>,
    pub forgejo_url: Option<String>,
    pub circleci_url: Option<String>,
    pub upgrade_strategy: Option<UpgradeStrategy>,
    pub concurrency: Option<usize>,
    pub ignore: Option<Vec<String>>,
    /// Vetted dependency hashes or references.
    pub vetted: Option<Vec<SecurityEntry>>,
    /// Compromised dependency hashes or references.
    pub compromised: Option<Vec<SecurityEntry>>,
    pub no_security_feedback: Option<bool>,
    pub check_osv: Option<bool>,
    pub strict: Option<bool>,
    pub oci_username: Option<String>,
    pub oci_password: Option<String>,
    pub offline: Option<bool>,
    pub no_cache: Option<bool>,
    pub cache_ttl: Option<u64>,
}

/// A configuration that sets nothing.
pub open spec fn empty_config(c: Config) -> bool {
    &&& c.workflows is None
    &&& c.yes is None
    &&& c.quiet is None
    &&& c.verbose is None
    &&& c.dry_run is None
    &&& c.github_token is None
    &&& c.bitbucket_token is None
    &&& c.gitlab_token is None
    &&& c.forgejo_token is None
    &&& c.circleci_token is None
    &&& c.format is None
    &&& c.github_url is None
    &&& c.bitbucket_url is None
    &&& c.gitlab_url is None
    &&& c.forgejo_url is None
    &&& c.circleci_url is None
    &&& c.upgrade_strategy is None
    &&& c.concurrency is None
    &&& c.ignore is None
    &&& c.vetted is None
    &&& c.compromised is None
    &&& c.no_security_feedback is None
    &&& c.check_osv is None
    &&& c.strict is None
    &&& c.oci_username is None
    &&& c.oci_password is None
    &&& c.offline is None
    &&& c.no_cache is None
    &&& c.cache_ttl is None
}

impl Default for Config {
    fn default() -> (r: Self)
        ensures
            empty_config(r),
    {
        Config {
            workflows: None,
            yes: None,
            quiet: None,
            verbose: None,
            dry_run: None,
            github_token: None,
            bitbucket_token: None,
            gitlab_token: None,
            forgejo_token: None,
            circleci_token: None,
            format: None,
            github_url: None,
            bitbucket_url: None,
            gitlab_url: None,
            forgejo_url: None,
            circleci_url: None,
            upgrade_strategy: None,
            concurrency: None,
            ignore: None,
            vetted: None,
            compromised: None,
            no_security_feedback: None,
            check_osv: None,
            strict: None,
            oci_username: None,
            oci_password: None,
            offline: None,
            no_cache: None,
            cache_ttl: None,
        }
    }
}

// ---------------------------------------------------------------------------
// Security lists
// ---------------------------------------------------------------------------

/// Some entry of `list` has the reference `r`.
pub open spec fn has_ref(list: Seq<SecurityEntry>, r: Seq<char>) -> bool {
    exists|i: int| 0 <= i < list.len() && (#[trigger] list[i]).reference@ == r
}

/// `acc` followed by each entry of `items`, in order, whose reference is not
/// already present.
pub open spec fn merge_entries(acc: Seq<SecurityEntry>, items: Seq<SecurityEntry>) -> Seq<
    SecurityEntry,
>
    decreases items.len(),
{
    if items.len() == 0 {
        acc
    } else {
        let m = merge_entries(acc, items.drop_last());
        if has_ref(m, items.last().reference@) {
            m
        } else {
            m.push(items.last())
        }
    }
}

/// The entries of an optional list (none when absent).
pub open spec fn entries_of(o: Option<Vec<SecurityEntry>>) -> Seq<SecurityEntry> {
    match o {
        Some(v) => v@,
        None => Seq::empty(),
    }
}

/// A list after merging another configuration's list into it.
pub open spec fn merged_list(
    mine: Option<Vec<SecurityEntry>>,
    other: Option<Vec<SecurityEntry>>,
    r: Option<Vec<SecurityEntry>>,
) -> bool {
    match other {
        Some(o) => r matches Some(v) && v@ == merge_entries(entries_of(mine), o@),
        None => r == mine,
    }
}

/// No two entries share a reference.
pub open spec fn distinct_refs(list: Seq<SecurityEntry>) -> bool {
    forall|i: int, j: int|
        0 <= i < j < list.len() ==> (#[trigger] list[i]).reference@ != (#[trigger] list[j]).reference@
}

/// Merging never drops or reorders what was already listed: the old list is a
/// prefix of the merged one.
pub proof fn lemma_merge_keeps_existing(acc: Seq<SecurityEntry>, items: Seq<SecurityEntry>)
    ensures
        merge_entries(acc, items).len() >= acc.len(),
        merge_entries(acc, items).take(acc.len() as int) == acc,
    decreases items.len(),
{
    if items.len() > 0 {
        lemma_merge_keeps_existing(acc, items.drop_last());
        let m = merge_entries(acc, items.drop_last());
        assert(m.push(items.last()).take(acc.len() as int) =~= m.take(acc.len() as int));
    }
}

/// A reference is listed after merging exactly when it was listed before or
/// in the merged list.
pub proof fn lemma_merge_covers(acc: Seq<SecurityEntry>, items: Seq<SecurityEntry>, r: Seq<char>)
    ensures
        has_ref(merge_entries(acc, items), r) <==> (has_ref(acc, r) || has_ref(items, r)),
    decreases items.len(),
{
    if items.len() > 0 {
        let init = items.drop_last();
        lemma_merge_covers(acc, init, r);
        let m = merge_entries(acc, init);
        if has_ref(items, r) {
            let i = choose|i: int| 0 <= i < items.len() && (#[trigger] items[i]).reference@ == r;
            if i < items.len() - 1 {
                assert(init[i] == items[i]);
            }
        }
        if has_ref(init, r) {
            let i = choose|i: int| 0 <= i < init.len() && (#[trigger] init[i]).reference@ == r;
            assert(items[i] == init[i]);
        }
        if !has_ref(m, items.last().reference@) {
            let mp = m.push(items.last());
            if has_ref(m, r) {
                let i = choose|i: int| 0 <= i < m.len() && (#[trigger] m[i]).reference@ == r;
                assert(mp[i] == m[i]);
            }
            if has_ref(mp, r) {
                let i = choose|i: int| 0 <= i < mp.len() && (#[trigger] mp[i]).reference@ == r;
                if i < m.len() {
                    assert(mp[i] == m[i]);
                }
            }
            assert(mp[m.len() as int] == items.last());
            assert(items[items.len() - 1] == items.last());
        } else {
            assert(items[items.len() - 1] == items.last());
        }
    }
}

/// Merging keeps references unique: a list without duplicates stays without
/// duplicates, whatever is merged into it.
pub proof fn lemma_merge_distinct(acc: Seq<SecurityEntry>, items: Seq<SecurityEntry>)
    requires
        distinct_refs(acc),
    ensures
        distinct_refs(merge_entries(acc, items)),
    decreases items.len(),
{
    if items.len() > 0 {
        lemma_merge_distinct(acc, items.drop_last());
        let m = merge_entries(acc, items.drop_last());
        if !has_ref(m, items.last().reference@) {
            let mp = m.push(items.last());
            assert forall|i: int, j: int| 0 <= i < j < mp.len() implies (#[trigger] mp[i]).reference@
                != (#[trigger] mp[j]).reference@ by {
                if j == m.len() {
                    assert(mp[i] == m[i]);
                    if m[i].reference@ == items.last().reference@ {
                        assert(has_ref(m, items.last().reference@));
                    }
                } else {
                    assert(mp[i] == m[i] && mp[j] == m[j]);
                }
            }
        }
    }
}

/// Merging the same list a second time changes nothing.
pub proof fn lemma_merge_idempotent(acc: Seq<SecurityEntry>, items: Seq<SecurityEntry>)
    ensures
        merge_entries(merge_entries(acc, items), items) == merge_entries(acc, items),
{
    let m = merge_entries(acc, items);
    assert forall|i: int| 0 <= i < items.len() implies has_ref(m, (#[trigger] items[i]).reference@) by {
        lemma_merge_covers(acc, items, items[i].reference@);
    }
    lemma_merge_already_listed(m, items);
}

/// Merging entries whose references are all listed already changes nothing.
proof fn lemma_merge_already_listed(m: Seq<SecurityEntry>, items: Seq<SecurityEntry>)
    requires
        forall|i: int| 0 <= i < items.len() ==> has_ref(m, (#[trigger] items[i]).reference@),
    ensures
        merge_entries(m, items) == m,
    decreases items.len(),
{
    if items.len() > 0 {
        let init = items.drop_last();
        assert forall|i: int| 0 <= i < init.len() implies has_ref(m, (#[trigger] init[i]).reference@) by {
            assert(init[i] == items[i]);
        }
        lemma_merge_already_listed(m, init);
        assert(has_ref(m, items[items.len() - 1].reference@));
    }
}

/// Two optional lists hold the same entries: both absent, or both present
/// with equal entries.
pub open spec fn same_list(a: Option<Vec<SecurityEntry>>, b: Option<Vec<SecurityEntry>>) -> bool {
    a is Some == b is Some && entries_of(a) == entries_of(b)
}

/// Merging the same list a second time changes nothing.
pub proof fn lemma_merged_list_twice(
    mine: Option<Vec<SecurityEntry>>,
    other: Option<Vec<SecurityEntry>>,
    once: Option<Vec<SecurityEntry>>,
    twice: Option<Vec<SecurityEntry>>,
)
    requires
        merged_list(mine, other, once),
        merged_list(once, other, twice),
    ensures
        same_list(once, twice),
{
    if let Some(o) = other {
        lemma_merge_idempotent(entries_of(mine), o@);
    }
}

/// Whether some entry of `list` has the reference `r`.
fn contains_ref(list: &Vec<SecurityEntry>, r: &String) -> (b: bool)
    ensures
        b == has_ref(list@, r@),
{
    let mut i: usize = 0;
    while i < list.len()
        invariant
            0 <= i <= list.len(),
            forall|j: int| 0 <= j < i ==> (#[trigger] list@[j]).reference@ != r@,
        decreases list.len() - i,
    {
        if str_eq(list[i].reference.as_str(), r.as_str()) {
            assert(list@[i as int].reference@ == r@);
            return true;
        }
        i = i + 1;
    }
    false
}

/// Appends the entries of `items` whose reference `list` does not hold yet.
pub(crate) fn merge_into(list: &mut Vec<SecurityEntry>, items: Vec<SecurityEntry>)
    ensures
        final(list)@ == merge_entries(old(list)@, items@),
{
    let ghost start = list@;
    let ghost all = items@;
    let mut k: usize = 0;
    let mut items = items;
    let n = items.len();
    while k < n
        invariant
            n == all.len(),
            items@ == all.skip(k as int),
            0 <= k <= n,
            list@ == merge_entries(start, all.take(k as int)),
        decreases n - k,
    {
        let item = items.remove(0);
        assert(all.take(k + 1).drop_last() =~= all.take(k as int));
        assert(item == all[k as int]);
        assert(all.skip(k + 1) =~= all.skip(k as int).remove(0));
        if !contains_ref(list, &item.reference) {
            list.push(item);
        }
        k = k + 1;
    }
    assert(all.take(n as int) =~= all);
}

/// An option set by `theirs` wins over `mine`.
pub open spec fn over<T>(mine: Option<T>, theirs: Option<T>) -> Option<T> {
    if theirs is Some {
        theirs
    } else {
        mine
    }
}

/// `s` is `o` with every option that `t` sets taken from `t`, and the security
/// lists merged.
pub open spec fn merged_config(o: Config, t: Config, s: Config) -> bool {
    &&& s.workflows == over(o.workflows, t.workflows)
    &&& s.yes == over(o.yes, t.yes)
    &&& s.quiet == over(o.quiet, t.quiet)
    &&& s.verbose == over(o.verbose, t.verbose)
    &&& s.dry_run == over(o.dry_run, t.dry_run)
    &&& s.github_token == over(o.github_token, t.github_token)
    &&& s.bitbucket_token == over(o.bitbucket_token, t.bitbucket_token)
    &&& s.gitlab_token == over(o.gitlab_token, t.gitlab_token)
    &&& s.forgejo_token == over(o.forgejo_token, t.forgejo_token)
    &&& s.circleci_token == over(o.circleci_token, t.circleci_token)
    &&& s.format == over(o.format, t.format)
    &&& s.github_url == over(o.github_url, t.github_url)
    &&& s.bitbucket_url == over(o.bitbucket_url, t.bitbucket_url)
    &&& s.gitlab_url == over(o.gitlab_url, t.gitlab_url)
    &&& s.forgejo_url == over(o.forgejo_url, t.forgejo_url)
    &&& s.circleci_url == over(o.circleci_url, t.circleci_url)
    &&& s.upgrade_strategy == over(o.upgrade_strategy, t.upgrade_strategy)
    &&& s.concurrency == over(o.concurrency, t.concurrency)
    &&& s.ignore == over(o.ignore, t.ignore)
    &&& s.no_security_feedback == over(o.no_security_feedback, t.no_security_feedback)
    &&& s.check_osv == over(o.check_osv, t.check_osv)
    &&& s.strict == over(o.strict, t.strict)
    &&& s.oci_username == over(o.oci_username, t.oci_username)
    &&& s.oci_password == over(o.oci_password, t.oci_password)
    &&& s.offline == over(o.offline, t.offline)
    &&& s.no_cache == over(o.no_cache, t.no_cache)
    &&& s.cache_ttl == over(o.cache_ttl, t.cache_ttl)
    &&& merged_list(o.vetted, t.vetted, s.vetted)
    &&& merged_list(o.compromised, t.compromised, s.compromised)
}

/// Two configurations agree: every option equal, and the same entries in
/// each security list.
pub open spec fn same_config(a: Config, b: Config) -> bool {
    &&& (Config { vetted: None, compromised: None, ..a }) == (Config { vetted: None, compromised: None, ..b })
    &&& same_list(a.vetted, b.vetted)
    &&& same_list(a.compromised, b.compromised)
}

/// `s` is `o` after merging `t`'s security lists into it (see
/// [`Config::merge_lists`]).
pub open spec fn lists_merged(o: Config, t: Config, s: Config) -> bool {
    &&& merged_list(o.vetted, t.vetted, s.vetted)
    &&& merged_list(o.compromised, t.compromised, s.compromised)
    &&& s == (Config { vetted: s.vetted, compromised: s.compromised, ..o })
}

/// Merging the same configuration's lists a second time changes nothing.
pub proof fn lemma_merge_lists_twice(mine: Config, other: Config, once: Config, twice: Config)
    requires
        lists_merged(mine, other, once),
        lists_merged(once, other, twice),
    ensures
        same_config(once, twice),
{
    lemma_merged_list_twice(mine.vetted, other.vetted, once.vetted, twice.vetted);
    lemma_merged_list_twice(mine.compromised, other.compromised, once.compromised, twice.compromised);
}

/// Merging the same configuration a second time changes nothing, the
/// vetted and compromised lists included.
pub proof fn lemma_merge_all_twice(mine: Config, other: Config, once: Config, twice: Config)
    requires
        merged_config(mine, other, once),
        merged_config(once, other, twice),
    ensures
        same_config(once, twice),
{
    lemma_merged_list_twice(mine.vetted, other.vetted, once.vetted, twice.vetted);
    lemma_merged_list_twice(mine.compromised, other.compromised, once.compromised, twice.compromised);
}

fn take_over<T>(mine: Option<T>, theirs: Option<T>) -> (r: Option<T>)
    ensures
        r == over(mine, theirs),
{
    if theirs.is_some() {
        theirs
    } else {
        mine
    }
}

/// Merges `other` into `list` when present.
fn merge_optional(list: &mut Option<Vec<SecurityEntry>>, other: Option<Vec<SecurityEntry>>)
    ensures
        merged_list(*old(list), other, *final(list)),
{
    if let Some(items) = other {
        let mut merged = match list.take() {
            Some(v) => v,
            None => Vec::new(),
        };
        merge_into(&mut merged, items);
        *list = Some(merged);
    }
}

/// A bool flag of the command line, unless it is off and the configuration
/// sets it.
pub open spec fn flag(cli: bool, cfg: Option<bool>) -> bool {
    if !cli && cfg is Some {
        cfg->0
    } else {
        cli
    }
}

/// An optional value of the command line, or the configuration's when the
/// command line has none.
pub open spec fn either<T>(cli: Option<T>, cfg: Option<T>) -> Option<T> {
    if cli is None {
        cfg
    } else {
        cli
    }
}

/// A base URL of the command line, unless it is still the public default and
/// the configuration names another.
pub open spec fn url(cli: Seq<char>, default: Seq<char>, cfg: Option<String>) -> Seq<char> {
    if cli == default && cfg is Some {
        cfg->0@
    } else {
        cli
    }
}

/// The subcommand with its options completed from the configuration: the OSV
/// check and strict mode when off, the upgrade strategy when it is `latest`.
pub open spec fn merged_command(cmd: Commands, cfg: Config) -> Commands {
    match cmd {
        Commands::Verify { check_osv, strict } => Commands::Verify {
            check_osv: flag(check_osv, cfg.check_osv),
            strict: flag(strict, cfg.strict),
        },
        Commands::Upgrade { interactive, upgrade_strategy } => Commands::Upgrade {
            interactive,
            upgrade_strategy: if upgrade_strategy == UpgradeStrategy::Latest
                && cfg.upgrade_strategy is Some {
                cfg.upgrade_strategy->0
            } else {
                upgrade_strategy
            },
        },
        Commands::Scan { upgrade_strategy } => Commands::Scan {
            upgrade_strategy: if upgrade_strategy == UpgradeStrategy::Latest
                && cfg.upgrade_strategy is Some {
                cfg.upgrade_strategy->0
            } else {
                upgrade_strategy
            },
        },
        _ => cmd,
    }
}

/// The command line completed from the configuration: every option given on
/// the command line wins; options left at their default take the
/// configuration's value.
pub open spec fn merged_cli(cfg: Config, cli: Cli, r: Cli) -> bool {
    &&& r.command == merged_command(cli.command, cfg)
    &&& r.workflows@ == (if cli.workflows@.len() == 0 && cfg.workflows is Some {
        cfg.workflows->0@
    } else {
        cli.workflows@
    })
    &&& r.yes == flag(cli.yes, cfg.yes)
    &&& r.quiet == flag(cli.quiet, cfg.quiet)
    &&& r.verbose == flag(cli.verbose, cfg.verbose)
    &&& r.dry_run == flag(cli.dry_run, cfg.dry_run)
    &&& r.offline == flag(cli.offline, cfg.offline)
    &&& r.no_cache == flag(cli.no_cache, cfg.no_cache)
    &&& r.cache_ttl == either(cli.cache_ttl, cfg.cache_ttl)
    &&& r.github_token == either(cli.github_token, cfg.github_token)
    &&& r.bitbucket_token == either(cli.bitbucket_token, cfg.bitbucket_token)
    &&& r.gitlab_token == either(cli.gitlab_token, cfg.gitlab_token)
    &&& r.forgejo_token == either(cli.forgejo_token, cfg.forgejo_token)
    &&& r.circleci_token == either(cli.circleci_token, cfg.circleci_token)
    &&& r.github_url@ == url(cli.github_url@, default_github_url(), cfg.github_url)
    &&& r.bitbucket_url@ == url(cli.bitbucket_url@, default_bitbucket_url(), cfg.bitbucket_url)
    &&& r.gitlab_url@ == url(cli.gitlab_url@, default_gitlab_url(), cfg.gitlab_url)
    &&& r.forgejo_url@ == url(cli.forgejo_url@, default_forgejo_url(), cfg.forgejo_url)
    &&& r.circleci_url@ == url(cli.circleci_url@, default_circleci_url(), cfg.circleci_url)
    &&& r.format == (if cli.format == OutputFormat::Text && cfg.format is Some {
        cfg.format->0
    } else {
        cli.format
    })
    &&& r.concurrency == either(cli.concurrency, cfg.concurrency)
    &&& r.ignore@ == (if cli.ignore@.len() == 0 && cfg.ignore is Some {
        cfg.ignore->0@
    } else {
        cli.ignore@
    })
    &&& r.oci_username == either(cli.oci_username, cfg.oci_username)
    &&& r.oci_password == either(cli.oci_password, cfg.oci_password)
}

fn take_flag(cli: bool, cfg: Option<bool>) -> (r: bool)
    ensures
        r == flag(cli, cfg),
{
    if !cli {
        if let Some(v) = cfg {
            return v;
        }
    }
    cli
}

fn take_either<T>(cli: Option<T>, cfg: Option<T>) -> (r: Option<T>)
    ensures
        r == either(cli, cfg),
{
    if cli.is_none() {
        cfg
    } else {
        cli
    }
}

fn take_url(cli: String, default: &str, cfg: Option<String>) -> (r: String)
    ensures
        r@ == url(cli@, default@, cfg),
{
    if str_eq(cli.as_str(), default) {
        if let Some(u) = cfg {
            return u;
        }
    }
    cli
}

fn take_strategy(cli: UpgradeStrategy, cfg: Option<UpgradeStrategy>) -> (r: UpgradeStrategy)
    ensures
        r == (if cli == UpgradeStrategy::Latest && cfg is Some {
            cfg->0
        } else {
            cli
        }),
{
    match cli {
        UpgradeStrategy::Latest => match cfg {
            Some(s) => s,
            None => cli,
        },
        _ => cli,
    }
}

impl Config {
    /// Merges security entry lists from another configuration into this one,
    /// avoiding duplicates: an entry whose reference is already listed is
    /// skipped.
    pub fn merge_lists(&mut self, other: Config)
        ensures
            lists_merged(*old(self), other, *final(self)),
    {
        merge_optional(&mut self.vetted, other.vetted);
        merge_optional(&mut self.compromised, other.compromised);
    }

    /// Merges all configuration options from another configuration into this
    /// one: every option that `other` sets replaces this one's, and the
    /// security lists are merged without duplicates.
    pub fn merge_all(&mut self, other: Config)
        ensures
            merged_config(*old(self), other, *final(self)),
    {
        let mut mine = Config::default();
        std::mem::swap(&mut mine, self);
        let Config {
            workflows: m_workflows,
            yes: m_yes,
            quiet: m_quiet,
            verbose: m_verbose,
            dry_run: m_dry_run,
            github_token: m_github_token,
            bitbucket_token: m_bitbucket_token,
            gitlab_token: m_gitlab_token,
            forgejo_token: m_forgejo_token,
            circleci_token: m_circleci_token,
            format: m_format,
            github_url: m_github_url,
            bitbucket_url: m_bitbucket_url,
            gitlab_url: m_gitlab_url,
            forgejo_url: m_forgejo_url,
            circleci_url: m_circleci_url,
            upgrade_strategy: m_upgrade_strategy,
            concurrency: m_concurrency,
            ignore: m_ignore,
            vetted: m_vetted,
            compromised: m_compromised,
            no_security_feedback: m_no_security_feedback,
            check_osv: m_check_osv,
            strict: m_strict,
            oci_username: m_oci_username,
            oci_password: m_oci_password,
            offline: m_offline,
            no_cache: m_no_cache,
            cache_ttl: m_cache_ttl,
        } = mine;
        let Config {
            workflows: t_workflows,
            yes: t_yes,
            quiet: t_quiet,
            verbose: t_verbose,
            dry_run: t_dry_run,
            github_token: t_github_token,
            bitbucket_token: t_bitbucket_token,
            gitlab_token: t_gitlab_token,
            forgejo_token: t_forgejo_token,
            circleci_token: t_circleci_token,
            format: t_format,
            github_url: t_github_url,
            bitbucket_url: t_bitbucket_url,
            gitlab_url: t_gitlab_url,
            forgejo_url: t_forgejo_url,
            circleci_url: t_circleci_url,
            upgrade_strategy: t_upgrade_strategy,
            concurrency: t_concurrency,
            ignore: t_ignore,
            vetted: t_vetted,
            compromised: t_compromised,
            no_security_feedback: t_no_security_feedback,
            check_osv: t_check_osv,
            strict: t_strict,
            oci_username: t_oci_username,
            oci_password: t_oci_password,
            offline: t_offline,
            no_cache: t_no_cache,
            cache_ttl: t_cache_ttl,
        } = other;
        let mut vetted = m_vetted;
        merge_optional(&mut vetted, t_vetted);
        let mut compromised = m_compromised;
        merge_optional(&mut compromised, t_compromised);
        *self = Config {
            workflows: take_over(m_workflows, t_workflows),
            yes: take_over(m_yes, t_yes),
            quiet: take_over(m_quiet, t_quiet),
            verbose: take_over(m_verbose, t_verbose),
            dry_run: take_over(m_dry_run, t_dry_run),
            github_token: take_over(m_github_token, t_github_token),
            bitbucket_token: take_over(m_bitbucket_token, t_bitbucket_token),
            gitlab_token: take_over(m_gitlab_token, t_gitlab_token),
            forgejo_token: take_over(m_forgejo_token, t_forgejo_token),
            circleci_token: take_over(m_circleci_token, t_circleci_token),
            format: take_over(m_format, t_format),
            github_url: take_over(m_github_url, t_github_url),
            bitbucket_url: take_over(m_bitbucket_url, t_bitbucket_url),
            gitlab_url: take_over(m_gitlab_url, t_gitlab_url),
            forgejo_url: take_over(m_forgejo_url, t_forgejo_url),
            circleci_url: take_over(m_circleci_url, t_circleci_url),
            upgrade_strategy: take_over(m_upgrade_strategy, t_upgrade_strategy),
            concurrency: take_over(m_concurrency, t_concurrency),
            ignore: take_over(m_ignore, t_ignore),
            vetted,
            compromised,
            no_security_feedback: take_over(m_no_security_feedback, t_no_security_feedback),
            check_osv: take_over(m_check_osv, t_check_osv),
            strict: take_over(m_strict, t_strict),
            oci_username: take_over(m_oci_username, t_oci_username),
            oci_password: take_over(m_oci_password, t_oci_password),
            offline: take_over(m_offline, t_offline),
            no_cache: take_over(m_no_cache, t_no_cache),
            cache_ttl: take_over(m_cache_ttl, t_cache_ttl),
        };
    }

    /// Merges this configuration with CLI arguments, with the CLI taking
    /// precedence: explicitly given flags always override the configuration,
    /// which only fills in options left unset or at their default.
    pub fn merge_with_cli(self, cli: Cli) -> (r: Cli)
        ensures
            merged_cli(self, cli, r),
    {
        let ghost cfg = self;
        let ghost c0 = cli;
        let Cli {
            command,
            workflows,
            yes,
            quiet,
            verbose,
            no_cache,
            cache_ttl,
            offline,
            dry_run,
            github_token,
            bitbucket_token,
            gitlab_token,
            forgejo_token,
            circleci_token,
            format,
            github_url,
            bitbucket_url,
            gitlab_url,
            forgejo_url,
            circleci_url,
            concurrency,
            ignore,
            oci_username,
            oci_password,
        } = cli;
        let workflows = if workflows.len() == 0 {
            match self.workflows {
                Some(w) => w,
                None => workflows,
            }
        } else {
            workflows
        };
        let command = match command {
            Commands::Verify { check_osv, strict } => Commands::Verify {
                check_osv: take_flag(check_osv, self.check_osv),
                strict: take_flag(strict, self.strict),
            },
            Commands::Upgrade { interactive, upgrade_strategy } => Commands::Upgrade {
                interactive,
                upgrade_strategy: take_strategy(upgrade_strategy, self.upgrade_strategy),
            },
            Commands::Scan { upgrade_strategy } => Commands::Scan {
                upgrade_strategy: take_strategy(upgrade_strategy, self.upgrade_strategy),
            },
            other => other,
        };
        let format = match format {
            OutputFormat::Text => match self.format {
                Some(f) => f,
                None => format,
            },
            _ => format,
        };
        let ignore = if ignore.len() == 0 {
            match self.ignore {
                Some(i) => i,
                None => ignore,
            }
        } else {
            ignore
        };
        Cli {
            command,
            workflows,
            yes: take_flag(yes, self.yes),
            quiet: take_flag(quiet, self.quiet),
            verbose: take_flag(verbose, self.verbose),
            no_cache: take_flag(no_cache, self.no_cache),
            cache_ttl: take_either(cache_ttl, self.cache_ttl),
            offline: take_flag(offline, self.offline),
            dry_run: take_flag(dry_run, self.dry_run),
            github_token: take_either(github_token, self.github_token),
            bitbucket_token: take_either(bitbucket_token, self.bitbucket_token),
            gitlab_token: take_either(gitlab_token, self.gitlab_token),
            forgejo_token: take_either(forgejo_token, self.forgejo_token),
            circleci_token: take_either(circleci_token, self.circleci_token),
            format,
            github_url: take_url(github_url, "https://api.github.com", self.github_url),
            bitbucket_url: take_url(bitbucket_url, "https://api.bitbucket.org/2.0", self.bitbucket_url),
            gitlab_url: take_url(gitlab_url, "https://gitlab.com", self.gitlab_url),
            forgejo_url: take_url(forgejo_url, "https://codeberg.org", self.forgejo_url),
            circleci_url: take_url(circleci_url, "https://circleci.com/graphql-unstable", self.circleci_url),
            concurrency: take_either(concurrency, self.concurrency),
            ignore,
            oci_username: take_either(oci_username, self.oci_username),
            oci_password: take_either(oci_password, self.oci_password),
        }
    }
}

// ---------------------------------------------------------------------------
// Writing the configuration back
// ---------------------------------------------------------------------------

/// `key = "value"`.
pub open spec fn quoted(key: Seq<char>, v: Seq<char>) -> Seq<char> {
    key + " = \""@ + v + "\""@
}

/// The fields of an entry as an inline table body: the reference, then the tag
/// and the timestamp when present.
pub open spec fn entry_fields(e: SecurityEntry) -> Seq<char> {
    quoted("ref"@, e.reference@) + (match e.tag {
        Some(t) => ", "@ + quoted("tag"@, t@),
        None => Seq::empty(),
    }) + (match e.timestamp {
        Some(t) => ", "@ + quoted("timestamp"@, t@),
        None => Seq::empty(),
    })
}

/// One entry as an indented inline table.
pub open spec fn entry_line(e: SecurityEntry) -> Seq<char> {
    "    { "@ + entry_fields(e) + " }"@
}

/// The entries, one per line, separated by commas.
pub open spec fn entry_lines(s: Seq<SecurityEntry>) -> Seq<char>
    decreases s.len(),
{
    if s.len() == 0 {
        Seq::empty()
    } else if s.len() == 1 {
        entry_line(s[0])
    } else {
        entry_lines(s.drop_last()) + ",\n"@ + entry_line(s.last())
    }
}

/// A security list as a TOML array of inline tables.
pub open spec fn security_list_text(s: Seq<SecurityEntry>) -> Seq<char> {
    if s.len() == 0 {
        "[]"@
    } else {
        "[\n"@ + entry_lines(s) + "\n]"@
    }
}

fn quoted_exec(key: &str, v: &str) -> (r: String)
    ensures
        r@ == quoted(key@, v@),
{
    let a = concat(key, " = \"");
    let b = concat(a.as_str(), v);
    concat(b.as_str(), "\"")
}

fn entry_line_exec(e: &SecurityEntry) -> (r: String)
    ensures
        r@ == entry_line(*e),
{
    let mut f = quoted_exec("ref", e.reference.as_str());
    if let Some(t) = &e.tag {
        let q = quoted_exec("tag", t.as_str());
        let part = concat(", ", q.as_str());
        f = concat(f.as_str(), part.as_str());
    }
    if let Some(t) = &e.timestamp {
        let q = quoted_exec("timestamp", t.as_str());
        let part = concat(", ", q.as_str());
        f = concat(f.as_str(), part.as_str());
    }
    let a = concat("    { ", f.as_str());
    concat(a.as_str(), " }")
}

/// Formats a security list as a TOML array with one inline table per line,
/// e.g. `[\n    { ref = "a@1", tag = "v1" }\n]`; an empty list is `[]`.
pub fn format_security_list(list: &Vec<SecurityEntry>) -> (r: String)
    ensures
        r@ == security_list_text(list@),
{
    if list.len() == 0 {
        return owned("[]");
    }
    let mut body = entry_line_exec(&list[0]);
    assert(list@.take(1).drop_last() =~= Seq::<SecurityEntry>::empty());
    assert(entry_lines(list@.take(1)) == entry_line(list@[0]));
    let mut i: usize = 1;
    while i < list.len()
        invariant
            1 <= i <= list.len(),
            body@ == entry_lines(list@.take(i as int)),
        decreases list.len() - i,
    {
        let line = entry_line_exec(&list[i]);
        let sep = concat(body.as_str(), ",\n");
        body = concat(sep.as_str(), line.as_str());
        assert(list@.take(i + 1).drop_last() =~= list@.take(i as int));
        assert(list@.take(i + 1).last() == list@[i as int]);
        i = i + 1;
    }
    assert(list@.take(list.len() as int) =~= list@);
    let a = concat("[\n", body.as_str());
    concat(a.as_str(), "\n]")
}

/// A text that does not end in a newline gets one (an empty text stays
/// empty).
pub open spec fn newline_terminated(t: Seq<char>) -> Seq<char> {
    if t.len() > 0 && t.last() != '\n' {
        t.push('\n')
    } else {
        t
    }
}

/// The text followed, when the list is present, by a blank line (unless the
/// text is empty) and `name = [...]`.
pub open spec fn with_section(t: Seq<char>, name: Seq<char>, list: Option<Vec<SecurityEntry>>) -> Seq<
    char,
> {
    match list {
        Some(v) => (if t.len() > 0 {
            t.push('\n')
        } else {
            t
        }) + name + " = "@ + security_list_text(v@) + "\n"@,
        None => t,
    }
}

/// The configuration file text: the TOML of the plain options, followed by the
/// vetted and compromised lists written as compact inline tables.
pub open spec fn config_text(base: Seq<char>, c: Config) -> Seq<char> {
    with_section(
        with_section(newline_terminated(base), "vetted"@, c.vetted),
        "compromised"@,
        c.compromised,
    )
}

fn with_section_exec(t: String, name: &str, list: &Option<Vec<SecurityEntry>>) -> (r: String)
    ensures
        r@ == with_section(t@, name@, *list),
{
    match list {
        Some(v) => {
            let mut t = t;
            proof {
                reveal_strlit("\n");
            }
            if !t.as_str().is_empty() {
                t = concat(t.as_str(), "\n");
            }
            let a = concat(t.as_str(), name);
            let b = concat(a.as_str(), " = ");
            let body = format_security_list(v);
            let c = concat(b.as_str(), body.as_str());
            concat(c.as_str(), "\n")
        },
        None => t,
    }
}

impl Config {
    /// The configuration file text. `base` is the pretty TOML of this
    /// configuration with the `vetted` and `compromised` lists left out; the
    /// lists are appended as arrays of compact inline tables.
    pub fn to_formatted_string(&self, base: String) -> (r: String)
        ensures
            r@ == config_text(base@, *self),
    {
        let chars = chars_of(base.as_str());
        let n = chars.len();
        let t = if n > 0 && chars[n - 1] != '\n' {
            concat(base.as_str(), "\n")
        } else {
            base
        };
        proof {
            reveal_strlit("\n");
            if n > 0 && chars@[n - 1] != '\n' {
                assert(base@.push('\n') =~= base@ + "\n"@);
            }
        }
        let t = with_section_exec(t, "vetted", &self.vetted);
        with_section_exec(t, "compromised", &self.compromised)
    }
}

} // verus!
