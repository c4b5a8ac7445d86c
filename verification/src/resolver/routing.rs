//! Which forge answers for a dependency, where each forge is reached, and
//! how a failed API reply is reported.
use crate::domain::dependency::DependencyName;
use crate::error::PinnerError;
use crate::text::{chars_of, concat, contains, contains_exec, owned, str_eq};
use chrono::{TimeZone, Utc};
use vstd::prelude::*;

verus! {

/// Metadata used to route a dependency request to the correct provider.
#[derive(Clone)]
pub struct ProviderTypeInfo {
    /// Domain names that this provider handles (e.g., ["github.com"]).
    pub domains: Vec<String>,
    /// YAML keys that this provider handles (e.g., ["uses", "image"]).
    pub keys: Vec<String>,
    /// Human-readable name of the provider.
    pub variant: String,
}

/// Routing metadata as values: domains, keys, name.
pub type InfoView = (Seq<Seq<char>>, Seq<Seq<char>>, Seq<char>);

pub open spec fn names_view(v: Seq<String>) -> Seq<Seq<char>> {
    v.map_values(|s: String| s@)
}

pub open spec fn info_view(i: ProviderTypeInfo) -> InfoView {
    (names_view(i.domains@), names_view(i.keys@), i.variant@)
}

pub open spec fn infos_view(is: Seq<ProviderTypeInfo>) -> Seq<InfoView> {
    is.map_values(|i: ProviderTypeInfo| info_view(i))
}

/// The dependency name holds one of the provider's domains.
pub open spec fn domain_match(i: InfoView, action: Seq<char>) -> bool {
    exists|j: int| 0 <= j < i.0.len() && contains(action, #[trigger] i.0[j])
}

/// The provider handles the YAML key.
pub open spec fn key_match(i: InfoView, key: Seq<char>) -> bool {
    i.1.contains(key)
}

/// The provider at `r` answers for the dependency: the first whose domain the
/// name holds; failing that, the first that handles the key; failing both,
/// the first provider.
pub open spec fn routed_to(infos: Seq<InfoView>, key: Seq<char>, action: Seq<char>, r: int) -> bool {
    0 <= r < infos.len() && if exists|i: int| 0 <= i < infos.len() && #[trigger] domain_match(infos[i], action) {
        domain_match(infos[r], action) && forall|i: int| 0 <= i < r ==> !#[trigger] domain_match(infos[i], action)
    } else if exists|i: int| 0 <= i < infos.len() && #[trigger] key_match(infos[i], key) {
        key_match(infos[r], key) && forall|i: int| 0 <= i < r ==> !#[trigger] key_match(infos[i], key)
    } else {
        r == 0
    }
}

fn holds_domain(domains: &Vec<String>, action: &Vec<char>) -> (r: bool)
    ensures
        r == exists|j: int| 0 <= j < domains@.len() && contains(action@, #[trigger] names_view(domains@)[j]),
{
    let ghost dv = names_view(domains@);
    let mut j: usize = 0;
    while j < domains.len()
        invariant
            0 <= j <= domains.len(),
            dv == names_view(domains@),
            forall|k: int| 0 <= k < j ==> !contains(action@, #[trigger] dv[k]),
        decreases domains.len() - j,
    {
        if contains_exec(action, &chars_of(domains[j].as_str())) {
            assert(contains(action@, dv[j as int]));
            return true;
        }
        j = j + 1;
    }
    false
}

fn holds_key(keys: &Vec<String>, key: &str) -> (r: bool)
    ensures
        r == keys@.map_values(|s: String| s@).contains(key@),
{
    let ghost kv = keys@.map_values(|s: String| s@);
    let mut j: usize = 0;
    while j < keys.len()
        invariant
            0 <= j <= keys.len(),
            kv == keys@.map_values(|s: String| s@),
            forall|k: int| 0 <= k < j ==> kv[k] != key@,
        decreases keys.len() - j,
    {
        if str_eq(keys[j].as_str(), key) {
            assert(kv[j as int] == key@);
            return true;
        }
        j = j + 1;
    }
    false
}

/// Selects the provider for a YAML key and dependency name (see
/// [`routed_to`]): domain first, then key, then the first provider.
pub fn route(infos: &Vec<ProviderTypeInfo>, key: &str, action: &DependencyName) -> (r: usize)
    requires
        infos.len() > 0,
    ensures
        routed_to(infos_view(infos@), key@, action.0@, r as int),
{
    let ghost iv = infos_view(infos@);
    let a = chars_of(action.0.as_str());
    let mut i: usize = 0;
    while i < infos.len()
        invariant
            0 <= i <= infos.len(),
            iv == infos_view(infos@),
            a@ == action.0@,
            forall|k: int| 0 <= k < i ==> !#[trigger] domain_match(iv[k], action.0@),
        decreases infos.len() - i,
    {
        assert(iv[i as int].0 == names_view(infos@[i as int].domains@));
        if holds_domain(&infos[i].domains, &a) {
            assert(domain_match(iv[i as int], action.0@));
            return i;
        }
        i = i + 1;
    }
    let mut i: usize = 0;
    while i < infos.len()
        invariant
            0 <= i <= infos.len(),
            iv == infos_view(infos@),
            forall|k: int| 0 <= k < infos.len() ==> !#[trigger] domain_match(iv[k], action.0@),
            forall|k: int| 0 <= k < i ==> !#[trigger] key_match(iv[k], key@),
        decreases infos.len() - i,
    {
        assert(iv[i as int].1 == names_view(infos@[i as int].keys@));
        if holds_key(&infos[i].keys, key) {
            assert(key_match(iv[i as int], key@));
            return i;
        }
        i = i + 1;
    }
    0
}

/// The providers the resolver knows, in routing order.
pub open spec fn default_route_table() -> Seq<InfoView> {
    seq![
        (seq!["github.com"@], seq!["uses"@, "image"@], "GitHub"@),
        (Seq::empty(), seq!["task"@, "template"@], "Azure"@),
        (seq!["bitbucket.org"@], seq!["pipe"@, "image"@], "Bitbucket"@),
        (seq!["gitlab.com"@], seq!["include"@, "image"@, "ref"@], "GitLab"@),
        (seq!["codeberg.org"@, "forgejo"@], seq!["uses"@, "image"@], "Forgejo"@),
        (Seq::empty(), seq!["orbs"@], "CircleCi"@)
    ]
}

fn names1(a: &str) -> (r: Vec<String>)
    ensures
        r@.map_values(|s: String| s@) == seq![a@],
{
    let v = vec![owned(a)];
    assert(v@.map_values(|s: String| s@) =~= seq![a@]);
    v
}

fn names2(a: &str, b: &str) -> (r: Vec<String>)
    ensures
        r@.map_values(|s: String| s@) == seq![a@, b@],
{
    let v = vec![owned(a), owned(b)];
    assert(v@.map_values(|s: String| s@) =~= seq![a@, b@]);
    v
}

fn names3(a: &str, b: &str, c: &str) -> (r: Vec<String>)
    ensures
        r@.map_values(|s: String| s@) == seq![a@, b@, c@],
{
    let v = vec![owned(a), owned(b), owned(c)];
    assert(v@.map_values(|s: String| s@) =~= seq![a@, b@, c@]);
    v
}

/// The routing table of the registered providers (see
/// [`default_route_table`]).
pub fn default_routes() -> (r: Vec<ProviderTypeInfo>)
    ensures
        infos_view(r@) == default_route_table(),
{
    let none: Vec<String> = Vec::new();
    assert(none@.map_values(|s: String| s@) =~= Seq::<Seq<char>>::empty());
    let v = vec![
        ProviderTypeInfo { domains: names1("github.com"), keys: names2("uses", "image"), variant: owned("GitHub") },
        ProviderTypeInfo { domains: none.clone(), keys: names2("task", "template"), variant: owned("Azure") },
        ProviderTypeInfo { domains: names1("bitbucket.org"), keys: names2("pipe", "image"), variant: owned("Bitbucket") },
        ProviderTypeInfo { domains: names1("gitlab.com"), keys: names3("include", "image", "ref"), variant: owned("GitLab") },
        ProviderTypeInfo { domains: names2("codeberg.org", "forgejo"), keys: names2("uses", "image"), variant: owned("Forgejo") },
        ProviderTypeInfo { domains: none, keys: names1("orbs"), variant: owned("CircleCi") },
    ];
    assert(infos_view(v@) =~= default_route_table());
    v
}

/// Where each forge is reached, and with which token.
#[derive(Clone)]
pub struct UnifiedProviderConfig {
    pub github_url: String,
    pub github_token: Option<String>,
    pub bitbucket_url: String,
    pub bitbucket_token: Option<String>,
    pub gitlab_url: String,
    pub gitlab_token: Option<String>,
    pub forgejo_url: String,
    pub forgejo_token: Option<String>,
    pub circleci_url: String,
    pub circleci_token: Option<String>,
}

impl Default for UnifiedProviderConfig {
    fn default() -> (r: Self)
        ensures
            r.github_url@ == "https://api.github.com"@,
            r.bitbucket_url@ == "https://api.bitbucket.org/2.0"@,
            r.gitlab_url@ == "https://gitlab.com"@,
            r.forgejo_url@ == "https://codeberg.org"@,
            r.circleci_url@ == "https://circleci.com/graphql-unstable"@,
            r.github_token is None,
            r.bitbucket_token is None,
            r.gitlab_token is None,
            r.forgejo_token is None,
            r.circleci_token is None,
    {
        UnifiedProviderConfig {
            github_url: owned("https://api.github.com"),
            github_token: None,
            bitbucket_url: owned("https://api.bitbucket.org/2.0"),
            bitbucket_token: None,
            gitlab_url: owned("https://gitlab.com"),
            gitlab_token: None,
            forgejo_url: owned("https://codeberg.org"),
            forgejo_token: None,
            circleci_url: owned("https://circleci.com/graphql-unstable"),
            circleci_token: None,
        }
    }
}

// ---------------------------------------------------------------------------
// Failed replies
// ---------------------------------------------------------------------------

pub open spec fn is_digit(c: char) -> bool {
    '0' <= c <= '9'
}

/// The value of a string of decimal digits.
pub open spec fn digits_value(s: Seq<char>) -> int
    decreases s.len(),
{
    if s.len() == 0 {
        0
    } else {
        digits_value(s.drop_last()) * 10 + (s.last() as int - '0' as int)
    }
}

/// A text without its leading sign, if any.
pub open spec fn unsigned_part(s: Seq<char>) -> Seq<char> {
    if s.len() > 0 && (s[0] == '-' || s[0] == '+') {
        s.drop_first()
    } else {
        s
    }
}

pub open spec fn all_digits(s: Seq<char>) -> bool {
    forall|i: int| 0 <= i < s.len() ==> is_digit(#[trigger] s[i])
}

/// The number a text denotes as `str::parse::<i64>` reads it: an optional
/// sign and at least one decimal digit, within the range of `i64`.
pub open spec fn parsed_i64(s: Seq<char>) -> Option<int> {
    let body = unsigned_part(s);
    if body.len() > 0 && all_digits(body) {
        let v = if s[0] == '-' {
            -digits_value(body)
        } else {
            digits_value(body)
        };
        if i64::MIN <= v <= i64::MAX {
            Some(v)
        } else {
            None
        }
    } else {
        None
    }
}

proof fn lemma_digits_grow(s: Seq<char>, i: int)
    requires
        0 <= i <= s.len(),
        forall|k: int| 0 <= k < s.len() ==> is_digit(#[trigger] s[k]),
    ensures
        digits_value(s) >= digits_value(s.take(i)),
        digits_value(s.take(i)) >= 0,
    decreases s.len() - i,
{
    if i < s.len() {
        lemma_digits_grow(s, i + 1);
        assert(s.take(i + 1).drop_last() =~= s.take(i));
    } else {
        assert(s.take(i) =~= s);
    }
    lemma_digits_nonneg(s.take(i));
}

proof fn lemma_digits_nonneg(s: Seq<char>)
    requires
        forall|k: int| 0 <= k < s.len() ==> is_digit(#[trigger] s[k]),
    ensures
        digits_value(s) >= 0,
    decreases s.len(),
{
    if s.len() > 0 {
        lemma_digits_nonneg(s.drop_last());
    }
}

/// Reads a number as `str::parse::<i64>` does (see [`parsed_i64`]).
pub fn parse_i64(s: &str) -> (r: Option<i64>)
    ensures
        match r {
            Some(v) => parsed_i64(s@) == Some(v as int),
            None => parsed_i64(s@) is None,
        },
{
    let v = chars_of(s);
    let neg = v.len() > 0 && v[0] == '-';
    let start: usize = if v.len() > 0 && (v[0] == '-' || v[0] == '+') {
        1
    } else {
        0
    };
    let ghost body = unsigned_part(v@);
    assert(body =~= v@.skip(start as int));
    if start >= v.len() {
        return None;
    }
    let mut acc: u128 = 0;
    let mut i: usize = start;
    while i < v.len()
        invariant
            start <= i <= v.len(),
            v@ == s@,
            body == unsigned_part(s@),
            body =~= v@.skip(start as int),
            forall|k: int| start <= k < i ==> is_digit(#[trigger] v@[k]),
            acc == digits_value(body.take(i - start)),
            acc <= 9223372036854775808,
        decreases v.len() - i,
    {
        let c = v[i];
        assert(body[i - start] == c);
        if !('0' <= c && c <= '9') {
            assert(!is_digit(body[i - start]));
            return None;
        }
        let d = (c as u32 - '0' as u32) as u128;
        assert(body.take(i - start + 1).drop_last() =~= body.take(i - start));
        assert(body.take(i - start + 1).last() == c);
        let next = acc * 10 + d;
        assert(d == c as int - '0' as int);
        assert(next == digits_value(body.take(i - start + 1)));
        if next > 9223372036854775808 {
            proof {
                assert forall|j: int| 0 <= j < (i + 1 - start) implies is_digit(#[trigger] body.take(i - start + 1)[j]) by {
                    assert(body.take(i - start + 1)[j] == v@[start + j]);
                }
                lemma_digits_nonneg(body.take(i - start + 1));
                if all_digits(body) {
                    lemma_digits_grow(body, i - start + 1);
                }
            }
            return None;
        }
        acc = next;
        i = i + 1;
    }
    assert(body.take(v.len() - start) =~= body);
    assert forall|k: int| 0 <= k < body.len() implies is_digit(#[trigger] body[k]) by {
        assert(body[k] == v@[start + k]);
    }
    if neg {
        if acc <= 9223372036854775808 {
            let m = acc as i128;
            Some((0 - m) as i64)
        } else {
            None
        }
    } else if acc <= 9223372036854775807 {
        Some(acc as i64)
    } else {
        None
    }
}

/// The UTC date and time of a UNIX timestamp, as chrono's
/// `DateTime::format` writes it with the format `fmt`, or `None` when the
/// timestamp is out of chrono's range.
pub uninterp spec fn utc_time_text(ts: i64, fmt: Seq<char>) -> Option<Seq<char>>;

/// The format of a rate limit's reset time.
pub open spec fn reset_format() -> Seq<char> {
    "%Y-%m-%d %H:%M:%S UTC"@
}

/// `Utc.timestamp_opt(ts, 0)` formatted with `fmt`
/// (`chrono::TimeZone::timestamp_opt`, `DateTime::format`). Trusted: the
/// text is chrono's, named by `utc_time_text`. Rendering a format that
/// chrono cannot render panics, so the format is the one of
/// [`reset_format`], which it renders.
#[verifier::external_body]
fn utc_time(ts: i64, fmt: &str) -> (r: Option<String>)
    requires
        fmt@ == reset_format(),
    ensures
        match r {
            Some(t) => utc_time_text(ts, fmt@) == Some(t@),
            None => utc_time_text(ts, fmt@) is None,
        },
{
    Utc.timestamp_opt(ts, 0).single().map(|dt| dt.format(fmt).to_string())
}

/// The hint added to a rate-limit message: when the limit resets (from a
/// reset header that holds a timestamp chrono can render), or else how long
/// to wait (from a retry-after header, consulted only without a reset
/// header).
pub open spec fn rate_limit_hint(reset: Option<Seq<char>>, retry_after: Option<Seq<char>>) -> Seq<char> {
    match reset {
        Some(r) => match parsed_i64(r) {
            Some(ts) => match utc_time_text(ts as i64, reset_format()) {
                Some(t) => " Rate limit resets at "@ + t + "."@,
                None => Seq::empty(),
            },
            None => Seq::empty(),
        },
        None => match retry_after {
            Some(a) => " Retry after "@ + a + " seconds."@,
            None => Seq::empty(),
        },
    }
}

/// The error for a failed reply with status `code` (rendered as `status`):
/// a rate-limit error for 403 and 429, an API error otherwise.
pub open spec fn reply_error(code: u16, status: Seq<char>, base_url: Seq<char>, action: Seq<char>, reset: Option<Seq<char>>, retry_after: Option<Seq<char>>) -> (bool, Seq<char>) {
    if code == 403 || code == 429 {
        (true, "API rate limit exceeded (HTTP "@ + status + ") at "@ + base_url + ". Try providing an API token to increase limits."@ + rate_limit_hint(reset, retry_after))
    } else {
        (false, "HTTP "@ + status + ": Error for action "@ + action + " at "@ + base_url)
    }
}

/// Converts a failed reply into an error (see [`reply_error`]): the reply's
/// status code and its rendering (`403 Forbidden`), and the texts of its
/// `x-ratelimit-reset` and `retry-after` headers where present.
pub fn handle_error(code: u16, status: &str, base_url: &str, action: &DependencyName, reset: Option<&str>, retry_after: Option<&str>) -> (r: PinnerError)
    ensures
        ({
            let e = reply_error(code, status@, base_url@, action.0@, match reset {
                Some(x) => Some(x@),
                None => None,
            }, match retry_after {
                Some(x) => Some(x@),
                None => None,
            });
            if e.0 {
                r matches PinnerError::RateLimit(m) && m@ == e.1
            } else {
                r matches PinnerError::Api(m) && m@ == e.1
            }
        }),
{
    if code == 403 || code == 429 {
        let a = concat("API rate limit exceeded (HTTP ", status);
        let b = concat(a.as_str(), ") at ");
        let c = concat(b.as_str(), base_url);
        let mut msg = concat(c.as_str(), ". Try providing an API token to increase limits.");
        match reset {
            Some(rs) => match parse_i64(rs) {
                Some(ts) => match utc_time(ts, "%Y-%m-%d %H:%M:%S UTC") {
                    Some(t) => {
                        let x = concat(msg.as_str(), " Rate limit resets at ");
                        let y = concat(x.as_str(), t.as_str());
                        msg = concat(y.as_str(), ".");
                    },
                    None => {},
                },
                None => {},
            },
            None => match retry_after {
                Some(ra) => {
                    let x = concat(msg.as_str(), " Retry after ");
                    let y = concat(x.as_str(), ra);
                    msg = concat(y.as_str(), " seconds.");
                },
                None => {},
            },
        }
        PinnerError::RateLimit(msg)
    } else {
        let a = concat("HTTP ", status);
        let b = concat(a.as_str(), ": Error for action ");
        let c = concat(b.as_str(), action.0.as_str());
        let d = concat(c.as_str(), " at ");
        PinnerError::Api(concat(d.as_str(), base_url))
    }
}

} // verus!
