//! The forge APIs behind repository requests: which HTTP requests answer a
//! request of the resolver, and what their replies mean.
//!
//! The executable sends each request and reads the reply's status and its
//! rate-limit headers; for a successful reply, the fields of its JSON body
//! that the request needs (listed with each API below) are read with
//! [`crate::resolver::json::read_values`]. It hands them back as a [`Reply`],
//! and [`forge_step`] decides what comes next.
use crate::domain::dependency::{DependencyName, DependencyRef};
use crate::error::PinnerError;
use crate::resolver::plan::{Fetch, Fetched};
use crate::resolver::routing::{handle_error, reply_error, UnifiedProviderConfig};
use crate::text::{chars_of, concat, contains, contains_exec, find_char, first_index_of, has_prefix, owned, slice_chars, string_of, usize_text, decimal};
use vstd::prelude::*;

verus! {

/// The APIs a repository request can go to.
#[derive(Debug, Clone, Copy, PartialEq, Eq, Structural)]
pub enum ForgeApi {
    /// The GitHub REST API.
    GitHub,
    /// Azure Pipelines tasks, answered from the GitHub repository
    /// `microsoft/azure-pipelines-tasks`.
    Azure,
    /// Bitbucket Cloud.
    BitbucketCloud,
    /// Bitbucket Data Center (server).
    BitbucketServer,
    /// The GitLab REST API.
    GitLab,
    /// The Forgejo (and Gitea) REST API.
    Forgejo,
    /// The CircleCI GraphQL API, for orbs.
    CircleCi,
}

/// How a successful reply's JSON body is read: the string at a JSON
/// pointer; each string at an item pointer within the array at a list
/// pointer; or the string at a required pointer followed, where present, by
/// the one at a refining pointer (none when the required one is absent).
/// Absent and null values read as absent.
#[derive(Debug, Clone)]
pub enum Reading {
    One(String),
    Each(String, String),
    Refined(String, String),
}

/// A request to send: a GET of a URL, or a POST of a JSON body, with how its
/// reply is read.
#[derive(Debug, Clone)]
pub enum Request {
    Get { url: String, reading: Reading },
    Post { url: String, body: String, reading: Reading },
}

/// The reply to a request: its status code and rendering (`404 Not Found`),
/// the fields read from its JSON body (`Err` with the decoder's message when
/// the body does not decode; `None` where the field is absent or null), and
/// its `x-ratelimit-reset` and `retry-after` headers.
#[derive(Debug)]
pub struct Reply {
    pub code: u16,
    pub status: String,
    pub values: Result<Option<Vec<String>>, String>,
    pub reset: Option<String>,
    pub retry_after: Option<String>,
}

/// What comes next: a request to send, or the answer.
#[derive(Debug)]
pub enum ForgeStep {
    Send(Request),
    Done(Result<Fetched, PinnerError>),
}

/// Fields as values.
pub type ValuesView = Result<Option<Seq<Seq<char>>>, Seq<char>>;

/// A reply as values: code, status, fields, reset and retry-after headers.
pub type ReplyView = (u16, Seq<char>, ValuesView, Option<Seq<char>>, Option<Seq<char>>);

pub open spec fn values_view(v: Result<Option<Vec<String>>, String>) -> ValuesView {
    match v {
        Ok(Some(vs)) => Ok(Some(vs@.map_values(|s: String| s@))),
        Ok(None) => Ok(None),
        Err(m) => Err(m@),
    }
}

pub open spec fn opt_text(o: Option<String>) -> Option<Seq<char>> {
    match o {
        Some(s) => Some(s@),
        None => None,
    }
}

pub open spec fn reply_view(r: Reply) -> ReplyView {
    (r.code, r.status@, values_view(r.values), opt_text(r.reset), opt_text(r.retry_after))
}

pub open spec fn replies_view(rs: Seq<Reply>) -> Seq<ReplyView> {
    rs.map_values(|r: Reply| reply_view(r))
}

/// The answer to a request, as values.
pub enum Outcome {
    Sha(Seq<char>),
    Release(Seq<char>),
    Tags(Seq<Seq<char>>),
    Branch(Seq<char>),
    Api(Seq<char>),
    RateLimit(Seq<char>),
}

/// A reading as values: kind (0 one, 1 each, 2 present) and pointers.
pub type ReadingView = (u8, Seq<Seq<char>>);

pub open spec fn reading_view(r: Reading) -> ReadingView {
    match r {
        Reading::One(p) => (0, seq![p@]),
        Reading::Each(l, i) => (1, seq![l@, i@]),
        Reading::Refined(a, b) => (2, seq![a@, b@]),
    }
}

pub open spec fn one(p: Seq<char>) -> ReadingView {
    (0, seq![p])
}

pub open spec fn each(l: Seq<char>, i: Seq<char>) -> ReadingView {
    (1, seq![l, i])
}

/// What comes next, as values: a request (POST or GET, URL, body, reading),
/// or the answer.
pub enum Flow {
    Send(bool, Seq<char>, Seq<char>, ReadingView),
    Done(Outcome),
}

/// A status code of success (2xx).
pub open spec fn is_success(code: u16) -> bool {
    200 <= code <= 299
}

/// The message when a successful reply lacks a field that is always there.
pub open spec fn missing_field() -> Seq<char> {
    "reply lacks the expected field"@
}

/// The first field of a reply, or the message of why there is none.
pub open spec fn first_field(v: ValuesView) -> Result<Seq<char>, Seq<char>> {
    match v {
        Ok(Some(vs)) => if vs.len() > 0 {
            Ok(vs[0])
        } else {
            Err(missing_field())
        },
        Ok(None) => Err(missing_field()),
        Err(m) => Err(m),
    }
}

/// The error of a failed reply, as `handle_error` builds it.
pub open spec fn failure(r: ReplyView, base: Seq<char>, action: Seq<char>) -> Outcome {
    let e = reply_error(r.0, r.1, base, action, r.3, r.4);
    if e.0 {
        Outcome::RateLimit(e.1)
    } else {
        Outcome::Api(e.1)
    }
}

/// An answer built from the first field of a reply, or the error of why
/// there is none.
pub open spec fn from_first(v: ValuesView, kind: u8) -> Outcome {
    match first_field(v) {
        Ok(x) => if kind == 0 {
            Outcome::Sha(x)
        } else if kind == 1 {
            Outcome::Release(x)
        } else {
            Outcome::Branch(x)
        },
        Err(m) => Outcome::Api(m),
    }
}

/// A GET request.
pub open spec fn get(url: Seq<char>, rd: ReadingView) -> Flow {
    Flow::Send(false, url, Seq::empty(), rd)
}

// ---------------------------------------------------------------------------
// GitHub
// ---------------------------------------------------------------------------

/// The repository of an action: its first two path segments
/// (`owner/repo/path` names `owner/repo`), or the whole name when it has
/// fewer.
pub open spec fn repository_path(action: Seq<char>) -> Seq<char> {
    match first_index_of(action, '/') {
        Some(i) => match first_index_of(action.skip(i + 1), '/') {
            Some(j) => action.take(i + 1 + j),
            None => action,
        },
        None => action,
    }
}

/// The GitHub repository of Azure tasks.
pub open spec fn azure_repo() -> Seq<char> {
    "microsoft/azure-pipelines-tasks"@
}

/// GitHub: the commit of a ref (`GET /repos/{repo}/commits/{ref}`, field
/// `sha`).
pub open spec fn github_commit(base: Seq<char>, repo: Seq<char>, reference: Seq<char>, action: Seq<char>, rs: Seq<ReplyView>) -> Flow {
    if rs.len() == 0 {
        get(base + "/repos/"@ + repo + "/commits/"@ + reference, one("/sha"@))
    } else if is_success(rs[0].0) {
        Flow::Done(from_first(rs[0].2, 0))
    } else {
        Flow::Done(failure(rs[0], base, action))
    }
}

/// GitHub: the default branch (`GET /repos/{repo}`, field
/// `default_branch`), `main` when the repository cannot be read.
pub open spec fn github_branch(base: Seq<char>, repo: Seq<char>, rs: Seq<ReplyView>, kind: u8) -> Flow {
    if rs.len() == 0 {
        get(base + "/repos/"@ + repo, one("/default_branch"@))
    } else if is_success(rs[0].0) {
        Flow::Done(from_first(rs[0].2, kind))
    } else {
        Flow::Done(from_first(Ok(Some(seq!["main"@])), kind))
    }
}

/// GitHub: the latest release (`GET /repos/{repo}/releases/latest`, field
/// `tag_name`); without releases (404), the default branch.
pub open spec fn github_release(base: Seq<char>, repo: Seq<char>, action: Seq<char>, rs: Seq<ReplyView>) -> Flow {
    if rs.len() == 0 {
        get(base + "/repos/"@ + repo + "/releases/latest"@, one("/tag_name"@))
    } else if is_success(rs[0].0) {
        Flow::Done(from_first(rs[0].2, 1))
    } else if rs[0].0 == 404 {
        github_branch(base, repo, rs.drop_first(), 1)
    } else {
        Flow::Done(failure(rs[0], base, action))
    }
}

/// GitHub: the tags (`GET /repos/{repo}/tags`, field `name` of each).
pub open spec fn github_tags(base: Seq<char>, repo: Seq<char>, action: Seq<char>, rs: Seq<ReplyView>) -> Flow {
    if rs.len() == 0 {
        get(base + "/repos/"@ + repo + "/tags"@, each(""@, "/name"@))
    } else if is_success(rs[0].0) {
        match rs[0].2 {
            Ok(Some(vs)) => Flow::Done(Outcome::Tags(vs)),
            Ok(None) => Flow::Done(Outcome::Tags(Seq::empty())),
            Err(m) => Flow::Done(Outcome::Api(m)),
        }
    } else {
        Flow::Done(failure(rs[0], base, action))
    }
}

/// The number of replies a GitHub release lookup reads.
pub open spec fn github_release_len(rs: Seq<ReplyView>) -> int {
    if rs.len() > 0 && !is_success(rs[0].0) && rs[0].0 == 404 {
        2
    } else {
        1
    }
}

/// Azure: the commit of the latest release of the tasks repository.
pub open spec fn azure_commit(base: Seq<char>, rs: Seq<ReplyView>) -> Flow {
    match github_release(base, azure_repo(), azure_repo(), rs) {
        Flow::Done(Outcome::Release(t)) => github_commit(base, azure_repo(), t, azure_repo(), rs.skip(github_release_len(rs))),
        other => other,
    }
}

// ---------------------------------------------------------------------------
// GitLab and Forgejo
// ---------------------------------------------------------------------------

/// A text with every `/` written `%2F`.
pub open spec fn escape_slashes(s: Seq<char>) -> Seq<char>
    decreases s.len(),
{
    if s.len() == 0 {
        Seq::empty()
    } else if s.last() == '/' {
        escape_slashes(s.drop_last()) + "%2F"@
    } else {
        escape_slashes(s.drop_last()).push(s.last())
    }
}

/// The API root of a repository: GitLab projects by escaped path, Forgejo
/// repositories by path.
pub open spec fn project_root(api: ForgeApi, base: Seq<char>, action: Seq<char>) -> Seq<char> {
    if api == ForgeApi::GitLab {
        base + "/api/v4/projects/"@ + escape_slashes(action)
    } else {
        base + "/api/v1/repos/"@ + action
    }
}

/// GitLab and Forgejo: the default branch (`GET {root}`, field
/// `default_branch`); `main` when the repository cannot be read, or, on
/// GitLab, names none.
pub open spec fn project_branch(api: ForgeApi, root: Seq<char>, rs: Seq<ReplyView>, kind: u8) -> Flow {
    if rs.len() == 0 {
        get(root, one("/default_branch"@))
    } else if is_success(rs[0].0) {
        match rs[0].2 {
            Ok(None) => if api == ForgeApi::GitLab {
                Flow::Done(from_first(Ok(Some(seq!["main"@])), kind))
            } else {
                Flow::Done(from_first(rs[0].2, kind))
            },
            v => Flow::Done(from_first(v, kind)),
        }
    } else {
        Flow::Done(from_first(Ok(Some(seq!["main"@])), kind))
    }
}

/// GitLab and Forgejo: the first release (`GET {root}/releases`, field
/// `tag_name` of each), else the default branch.
pub open spec fn project_release(api: ForgeApi, root: Seq<char>, rs: Seq<ReplyView>) -> Flow {
    if rs.len() == 0 {
        get(root + "/releases"@, each(""@, "/tag_name"@))
    } else if is_success(rs[0].0) {
        match rs[0].2 {
            Err(m) => Flow::Done(Outcome::Api(m)),
            Ok(Some(vs)) => if vs.len() > 0 {
                Flow::Done(Outcome::Release(vs[0]))
            } else {
                project_branch(api, root, rs.drop_first(), 1)
            },
            Ok(None) => project_branch(api, root, rs.drop_first(), 1),
        }
    } else {
        project_branch(api, root, rs.drop_first(), 1)
    }
}

/// GitLab and Forgejo: the commit of a ref (GitLab
/// `GET {root}/repository/commits/{ref}`, field `id`; Forgejo
/// `GET {root}/commits/{ref}`, field `sha`).
pub open spec fn project_commit(api: ForgeApi, base: Seq<char>, root: Seq<char>, reference: Seq<char>, action: Seq<char>, rs: Seq<ReplyView>) -> Flow {
    if rs.len() == 0 {
        get(root + if api == ForgeApi::GitLab {
            "/repository/commits/"@
        } else {
            "/commits/"@
        } + reference, if api == ForgeApi::GitLab {
            one("/id"@)
        } else {
            one("/sha"@)
        })
    } else if is_success(rs[0].0) {
        Flow::Done(from_first(rs[0].2, 0))
    } else {
        Flow::Done(failure(rs[0], base, action))
    }
}

/// GitLab and Forgejo: the tags (GitLab `GET {root}/repository/tags`,
/// Forgejo `GET {root}/tags`, field `name` of each); none when they cannot
/// be read.
pub open spec fn project_tags(api: ForgeApi, root: Seq<char>, rs: Seq<ReplyView>) -> Flow {
    if rs.len() == 0 {
        get(root + if api == ForgeApi::GitLab {
            "/repository/tags"@
        } else {
            "/tags"@
        }, each(""@, "/name"@))
    } else if is_success(rs[0].0) {
        match rs[0].2 {
            Ok(Some(vs)) => Flow::Done(Outcome::Tags(vs)),
            Ok(None) => Flow::Done(Outcome::Tags(Seq::empty())),
            Err(m) => Flow::Done(Outcome::Api(m)),
        }
    } else {
        Flow::Done(Outcome::Tags(Seq::empty()))
    }
}

// ---------------------------------------------------------------------------
// Bitbucket
// ---------------------------------------------------------------------------

/// The project and repository of a Bitbucket Data Center action
/// (`project/repo`, split at the first `/`).
pub open spec fn split_project(action: Seq<char>) -> Option<(Seq<char>, Seq<char>)> {
    match first_index_of(action, '/') {
        Some(i) => Some((action.take(i), action.skip(i + 1))),
        None => None,
    }
}

/// The error when a Bitbucket ref is neither a tag nor a branch.
pub open spec fn ref_not_found(status: Seq<char>, reference: Seq<char>) -> Outcome {
    Outcome::Api("Bitbucket API error (HTTP "@ + status + "): Ref not found: "@ + reference)
}

/// Bitbucket Cloud: the commit of a ref. First as a tag
/// (`GET /repositories/{action}/refs/tags/{ref}`, field `target.hash`,
/// required, refined by `target.target.hash` where present, which wins), then as a branch
/// (`GET /repositories/{action}/refs/branches/{ref}`, field `target.hash`).
pub open spec fn cloud_commit(base: Seq<char>, action: Seq<char>, reference: Seq<char>, rs: Seq<ReplyView>) -> Flow {
    if rs.len() == 0 {
        get(base + "/repositories/"@ + action + "/refs/tags/"@ + reference, (2, seq!["/target/hash"@, "/target/target/hash"@]))
    } else if is_success(rs[0].0) {
        match rs[0].2 {
            Ok(Some(vs)) => if vs.len() > 0 {
                Flow::Done(Outcome::Sha(vs.last()))
            } else {
                Flow::Done(Outcome::Api(missing_field()))
            },
            Ok(None) => Flow::Done(Outcome::Api(missing_field())),
            Err(m) => Flow::Done(Outcome::Api(m)),
        }
    } else if rs.len() == 1 {
        get(base + "/repositories/"@ + action + "/refs/branches/"@ + reference, one("/target/hash"@))
    } else if is_success(rs[1].0) {
        Flow::Done(from_first(rs[1].2, 0))
    } else {
        Flow::Done(ref_not_found(rs[1].1, reference))
    }
}

/// The Data Center root of a repository.
pub open spec fn server_root(base: Seq<char>, project: Seq<char>, repo: Seq<char>) -> Seq<char> {
    base + "/rest/api/1.0/projects/"@ + project + "/repos/"@ + repo
}

/// Bitbucket Data Center: the commit of a ref. First as a tag
/// (`GET {root}/tags/{ref}`, field `latestCommit`), then as a branch
/// (`GET {root}/branches?filterText={ref}`, field `latestCommit` of each
/// match, the first wins).
pub open spec fn server_commit(base: Seq<char>, action: Seq<char>, reference: Seq<char>, rs: Seq<ReplyView>) -> Flow {
    match split_project(action) {
        None => Flow::Done(Outcome::Api("Invalid Bitbucket action format: "@ + action + ". Expected 'project/repo'"@)),
        Some(pr) => {
            let root = server_root(base, pr.0, pr.1);
            if rs.len() == 0 {
                get(root + "/tags/"@ + reference, one("/latestCommit"@))
            } else if is_success(rs[0].0) {
                Flow::Done(from_first(rs[0].2, 0))
            } else if rs.len() == 1 {
                get(root + "/branches?filterText="@ + reference, each("/values"@, "/latestCommit"@))
            } else if is_success(rs[1].0) {
                match rs[1].2 {
                    Err(m) => Flow::Done(Outcome::Api(m)),
                    Ok(Some(vs)) => if vs.len() > 0 {
                        Flow::Done(Outcome::Sha(vs[0]))
                    } else {
                        Flow::Done(ref_not_found(rs[1].1, reference))
                    },
                    Ok(None) => Flow::Done(ref_not_found(rs[1].1, reference)),
                }
            } else {
                Flow::Done(ref_not_found(rs[1].1, reference))
            }
        },
    }
}

/// Bitbucket: the tags (Cloud `GET /repositories/{action}/refs/tags`, field
/// `name` of each; Data Center `GET {root}/tags`, field `displayId` of
/// each); none when they cannot be read.
pub open spec fn bitbucket_tags(api: ForgeApi, base: Seq<char>, action: Seq<char>, rs: Seq<ReplyView>) -> Flow {
    let url = if api == ForgeApi::BitbucketCloud {
        Some(base + "/repositories/"@ + action + "/refs/tags"@)
    } else {
        match split_project(action) {
            Some(pr) => Some(server_root(base, pr.0, pr.1) + "/tags"@),
            None => None,
        }
    };
    match url {
        None => Flow::Done(Outcome::Tags(Seq::empty())),
        Some(u) => if rs.len() == 0 {
            get(u, if api == ForgeApi::BitbucketCloud {
            each("/values"@, "/name"@)
        } else {
            each("/values"@, "/display_id"@)
        })
        } else if is_success(rs[0].0) {
            match rs[0].2 {
                Ok(Some(vs)) => Flow::Done(Outcome::Tags(vs)),
                Ok(None) => Flow::Done(Outcome::Tags(Seq::empty())),
                Err(m) => Flow::Done(Outcome::Api(m)),
            }
        } else {
            Flow::Done(Outcome::Tags(Seq::empty()))
        },
    }
}

/// Bitbucket: the default branch (Cloud `GET /repositories/{action}`, field
/// `mainbranch.name`, `main` where absent; Data Center `GET {root}`, field
/// `defaultBranch`); `main` when the repository cannot be read.
pub open spec fn bitbucket_branch(api: ForgeApi, base: Seq<char>, action: Seq<char>, rs: Seq<ReplyView>, kind: u8) -> Flow {
    let url = if api == ForgeApi::BitbucketCloud {
        Some(base + "/repositories/"@ + action)
    } else {
        match split_project(action) {
            Some(pr) => Some(server_root(base, pr.0, pr.1)),
            None => None,
        }
    };
    match url {
        None => Flow::Done(from_first(Ok(Some(seq!["main"@])), kind)),
        Some(u) => if rs.len() == 0 {
            get(u, if api == ForgeApi::BitbucketCloud {
            one("/mainbranch/name"@)
        } else {
            one("/defaultBranch"@)
        })
        } else if is_success(rs[0].0) {
            match rs[0].2 {
                Ok(None) => if api == ForgeApi::BitbucketCloud {
                    Flow::Done(from_first(Ok(Some(seq!["main"@])), kind))
                } else {
                    Flow::Done(from_first(rs[0].2, kind))
                },
                v => Flow::Done(from_first(v, kind)),
            }
        } else {
            Flow::Done(from_first(Ok(Some(seq!["main"@])), kind))
        },
    }
}

// ---------------------------------------------------------------------------
// CircleCI
// ---------------------------------------------------------------------------

/// A lowercase hexadecimal digit.
pub open spec fn hex_digit(n: int) -> char {
    if n < 10 {
        (n + 48) as char
    } else {
        (n + 87) as char
    }
}

/// How `serde_json` writes one character inside a string literal: `"` and
/// `\` escaped with a backslash; backspace, tab, line feed, form feed and
/// carriage return as `\b`, `\t`, `\n`, `\f`, `\r`; the other control
/// characters below U+0020 as `\u00` and two lowercase hex digits; every
/// other character as itself.
pub open spec fn json_escaped(c: char) -> Seq<char> {
    if c == '"' {
        seq!['\\', '"']
    } else if c == '\\' {
        seq!['\\', '\\']
    } else if c == '\x08' {
        seq!['\\', 'b']
    } else if c == '\t' {
        seq!['\\', 't']
    } else if c == '\n' {
        seq!['\\', 'n']
    } else if c == '\x0C' {
        seq!['\\', 'f']
    } else if c == '\r' {
        seq!['\\', 'r']
    } else if (c as int) < 32 {
        seq!['\\', 'u', '0', '0', hex_digit((c as int) / 16), hex_digit((c as int) % 16)]
    } else {
        seq![c]
    }
}

/// The escaped characters of a text, in order.
pub open spec fn json_escaped_text(s: Seq<char>) -> Seq<char>
    decreases s.len(),
{
    if s.len() == 0 {
        Seq::empty()
    } else {
        json_escaped_text(s.drop_last()) + json_escaped(s.last())
    }
}

/// A text as a JSON string literal, as `serde_json` writes it: in double
/// quotes, each character escaped as [`json_escaped`] says.
pub open spec fn json_string_text(s: Seq<char>) -> Seq<char> {
    seq!['"'] + json_escaped_text(s) + seq!['"']
}

/// `serde_json::to_string` of a string. Trusted: the text is serde_json's
/// string literal, as its escape table (`ESCAPE` in `ser.rs`) writes it (see
/// [`json_string_text`]); serialising a string cannot fail.
#[verifier::external_body]
pub(crate) fn json_string(s: &str) -> (r: String)
    ensures
        r@ == json_string_text(s@),
{
    serde_json::to_string(s).unwrap_or_default()
}

/// The GraphQL query for the versions of an orb, newest first.
pub open spec fn orb_query(count: Seq<char>) -> Seq<char> {
    "
            query GetOrb($name: String!) {
                orb(name: $name) {
                    versions(count: "@ + count + ") {
                        version
                    }
                }
            }
        "@
}

/// The JSON body of a GraphQL request for the versions of an orb.
pub open spec fn orb_request(count: Seq<char>, name: Seq<char>) -> Seq<char> {
    "{\"query\":"@ + json_string_text(orb_query(count)) + ",\"variables\":{\"name\":"@ + json_string_text(name) + "}}"@
}

/// CircleCI: the versions of an orb (`POST` of [`orb_request`], field
/// `version` of each of `data.orb.versions`, absent without such an orb):
/// the newest for a release, up to a hundred for the tags.
pub open spec fn circleci_versions(base: Seq<char>, action: Seq<char>, latest: bool, rs: Seq<ReplyView>) -> Flow {
    if rs.len() == 0 {
        Flow::Send(true, base, orb_request(if latest {
            "1"@
        } else {
            "100"@
        }, action), each("/data/orb/versions"@, "/version"@))
    } else if is_success(rs[0].0) {
        match rs[0].2 {
            Err(m) => Flow::Done(Outcome::Api(m)),
            Ok(Some(vs)) => if !latest {
                Flow::Done(Outcome::Tags(vs))
            } else if vs.len() > 0 {
                Flow::Done(Outcome::Release(vs[0]))
            } else {
                Flow::Done(Outcome::Api("Orb not found: "@ + action))
            },
            Ok(None) => Flow::Done(Outcome::Api("Orb not found: "@ + action)),
        }
    } else {
        Flow::Done(Outcome::Api("CircleCI API error (HTTP "@ + rs[0].1 + "): "@ + action))
    }
}

// ---------------------------------------------------------------------------
// All APIs
// ---------------------------------------------------------------------------

/// A request of the resolver, as values: kind (1 commit, 2 release, 3 tags,
/// 4 branch) and the ref of a commit request.
pub open spec fn fetch_kind(f: Fetch) -> (int, Seq<char>) {
    match f {
        Fetch::Digest { .. } => (0, Seq::empty()),
        Fetch::CommitSha { reference } => (1, reference@),
        Fetch::LatestRelease => (2, Seq::empty()),
        Fetch::Tags => (3, Seq::empty()),
        Fetch::DefaultBranch => (4, Seq::empty()),
    }
}

/// What comes next for a repository request to an API, after the replies so
/// far.
pub open spec fn forge_flow(api: ForgeApi, base: Seq<char>, f: Fetch, action: Seq<char>, rs: Seq<ReplyView>) -> Flow {
    let (kind, reference) = fetch_kind(f);
    if kind == 0 {
        Flow::Done(Outcome::Api("image digests are not served by forges"@))
    } else {
        match api {
            ForgeApi::GitHub => {
                let repo = repository_path(action);
                if kind == 1 {
                    github_commit(base, repo, reference, action, rs)
                } else if kind == 2 {
                    github_release(base, repo, action, rs)
                } else if kind == 3 {
                    github_tags(base, repo, action, rs)
                } else {
                    github_branch(base, repo, rs, 2)
                }
            },
            ForgeApi::Azure => if kind == 1 {
                azure_commit(base, rs)
            } else if kind == 2 {
                github_release(base, azure_repo(), azure_repo(), rs)
            } else if kind == 3 {
                github_tags(base, azure_repo(), azure_repo(), rs)
            } else {
                github_branch(base, azure_repo(), rs, 2)
            },
            ForgeApi::GitLab | ForgeApi::Forgejo => {
                let root = project_root(api, base, action);
                if kind == 1 {
                    project_commit(api, base, root, reference, action, rs)
                } else if kind == 2 {
                    project_release(api, root, rs)
                } else if kind == 3 {
                    project_tags(api, root, rs)
                } else {
                    project_branch(api, root, rs, 2)
                }
            },
            ForgeApi::BitbucketCloud | ForgeApi::BitbucketServer => if kind == 1 {
                if api == ForgeApi::BitbucketCloud {
                    cloud_commit(base, action, reference, rs)
                } else {
                    server_commit(base, action, reference, rs)
                }
            } else if kind == 2 {
                bitbucket_branch(api, base, action, rs, 1)
            } else if kind == 3 {
                bitbucket_tags(api, base, action, rs)
            } else {
                bitbucket_branch(api, base, action, rs, 2)
            },
            ForgeApi::CircleCi => if kind == 1 {
                Flow::Done(Outcome::Api("CircleCI Orbs do not support Git SHA pinning"@))
            } else if kind == 2 {
                circleci_versions(base, action, true, rs)
            } else if kind == 3 {
                circleci_versions(base, action, false, rs)
            } else {
                Flow::Done(Outcome::Api("CircleCI Orbs do not have default branches"@))
            },
        }
    }
}

/// An answer holds the outcome.
pub open spec fn answer_is(r: Result<Fetched, PinnerError>, o: Outcome) -> bool {
    match o {
        Outcome::Sha(s) => r matches Ok(Fetched::Sha(d)) && d.text() == s && (d is DockerDigest <==> has_prefix(s, "sha256:"@)) && !(d is Version),
        Outcome::Release(s) => r matches Ok(Fetched::Release(t)) && t@ == s,
        Outcome::Tags(ts) => r matches Ok(Fetched::Tags(v)) && v@.map_values(|x: String| x@) == ts,
        Outcome::Branch(s) => r matches Ok(Fetched::Branch(b)) && b@ == s,
        Outcome::Api(m) => r matches Err(PinnerError::Api(e)) && e@ == m,
        Outcome::RateLimit(m) => r matches Err(PinnerError::RateLimit(e)) && e@ == m,
    }
}

/// A step holds the flow.
pub open spec fn step_is(s: ForgeStep, f: Flow) -> bool {
    match f {
        Flow::Send(post, url, body, rd) => match s {
            ForgeStep::Send(Request::Get { url: u, reading: g }) => !post && u@ == url && reading_view(g) == rd,
            ForgeStep::Send(Request::Post { url: u, body: b, reading: g }) => post && u@ == url && b@ == body && reading_view(g) == rd,
            ForgeStep::Done(_) => false,
        },
        Flow::Done(o) => s matches ForgeStep::Done(r) && answer_is(r, o),
    }
}

// ---------------------------------------------------------------------------
// The exec side
// ---------------------------------------------------------------------------

fn success(code: u16) -> (r: bool)
    ensures
        r == is_success(code),
{
    200 <= code && code <= 299
}

fn copy_texts(v: &Vec<String>) -> (r: Vec<String>)
    ensures
        r@.map_values(|s: String| s@) == v@.map_values(|s: String| s@),
{
    let mut out: Vec<String> = Vec::new();
    let mut i: usize = 0;
    while i < v.len()
        invariant
            0 <= i <= v.len(),
            out@.map_values(|s: String| s@) == v@.take(i as int).map_values(|s: String| s@),
        decreases v.len() - i,
    {
        let ghost before = out@.map_values(|s: String| s@);
        out.push(v[i].clone());
        assert(out@.map_values(|s: String| s@) =~= before.push(v@[i as int]@));
        assert(v@.take(i + 1).map_values(|s: String| s@) =~= v@.take(i as int).map_values(|s: String| s@).push(v@[i as int]@));
        i = i + 1;
    }
    assert(v@.take(v.len() as int) =~= v@);
    out
}

fn answer_text(x: String, kind: u8) -> (r: Result<Fetched, PinnerError>)
    ensures
        answer_is(r, from_first(Ok(Some(seq![x@])), kind)),
{
    if kind == 0 {
        Ok(Fetched::Sha(DependencyRef::from_string(x)))
    } else if kind == 1 {
        Ok(Fetched::Release(x))
    } else {
        Ok(Fetched::Branch(x))
    }
}

fn answer_first(v: &Result<Option<Vec<String>>, String>, kind: u8) -> (r: Result<Fetched, PinnerError>)
    ensures
        answer_is(r, from_first(values_view(*v), kind)),
{
    match v {
        Ok(Some(vs)) => {
            if vs.len() > 0 {
                assert(values_view(*v)->Ok_0->Some_0[0] == vs@[0]@);
                answer_text(vs[0].clone(), kind)
            } else {
                Err(PinnerError::Api(owned("reply lacks the expected field")))
            }
        },
        Ok(None) => Err(PinnerError::Api(owned("reply lacks the expected field"))),
        Err(m) => Err(PinnerError::Api(m.clone())),
    }
}

fn main_branch(kind: u8) -> (r: Result<Fetched, PinnerError>)
    ensures
        answer_is(r, from_first(Ok(Some(seq!["main"@])), kind)),
{
    answer_text(owned("main"), kind)
}

fn answer_tags(v: &Result<Option<Vec<String>>, String>) -> (r: Result<Fetched, PinnerError>)
    ensures
        answer_is(r, match values_view(*v) {
            Ok(Some(vs)) => Outcome::Tags(vs),
            Ok(None) => Outcome::Tags(Seq::empty()),
            Err(m) => Outcome::Api(m),
        }),
{
    match v {
        Ok(Some(vs)) => Ok(Fetched::Tags(copy_texts(vs))),
        Ok(None) => {
            let e: Vec<String> = Vec::new();
            assert(e@.map_values(|x: String| x@) =~= Seq::<Seq<char>>::empty());
            Ok(Fetched::Tags(e))
        },
        Err(m) => Err(PinnerError::Api(m.clone())),
    }
}

fn no_tags() -> (r: Result<Fetched, PinnerError>)
    ensures
        answer_is(r, Outcome::Tags(Seq::empty())),
{
    let e: Vec<String> = Vec::new();
    assert(e@.map_values(|x: String| x@) =~= Seq::<Seq<char>>::empty());
    Ok(Fetched::Tags(e))
}

fn opt_str(o: &Option<String>) -> (r: Option<&str>)
    ensures
        match r {
            Some(x) => opt_text(*o) == Some(x@),
            None => opt_text(*o) is None,
        },
{
    match o {
        Some(s) => Some(s.as_str()),
        None => None,
    }
}

fn fail(reply: &Reply, base: &str, action: &str) -> (r: Result<Fetched, PinnerError>)
    ensures
        answer_is(r, failure(reply_view(*reply), base@, action@)),
{
    let name = DependencyName(owned(action));
    Err(handle_error(reply.code, reply.status.as_str(), base, &name, opt_str(&reply.reset), opt_str(&reply.retry_after)))
}

fn send_get(url: String, reading: Reading) -> (r: ForgeStep)
    ensures
        step_is(r, get(url@, reading_view(reading))),
{
    ForgeStep::Send(Request::Get { url, reading })
}

fn read_one(p: &str) -> (r: Reading)
    ensures
        reading_view(r) == one(p@),
{
    Reading::One(owned(p))
}

fn read_each(l: &str, i: &str) -> (r: Reading)
    ensures
        reading_view(r) == each(l@, i@),
{
    Reading::Each(owned(l), owned(i))
}

fn cat3(a: &str, b: &str, c: &str) -> (r: String)
    ensures
        r@ == a@ + b@ + c@,
{
    let x = concat(a, b);
    concat(x.as_str(), c)
}

fn cat4(a: &str, b: &str, c: &str, d: &str) -> (r: String)
    ensures
        r@ == a@ + b@ + c@ + d@,
{
    let x = cat3(a, b, c);
    concat(x.as_str(), d)
}

fn cat5(a: &str, b: &str, c: &str, d: &str, e: &str) -> (r: String)
    ensures
        r@ == a@ + b@ + c@ + d@ + e@,
{
    let x = cat4(a, b, c, d);
    concat(x.as_str(), e)
}

/// The repository of an action (see [`repository_path`]).
pub fn repository_of(action: &str) -> (r: String)
    ensures
        r@ == repository_path(action@),
{
    let v = chars_of(action);
    match find_char(&v, '/') {
        Some(i) => {
            let rest = slice_chars(&v, i + 1, v.len());
            assert(rest@ =~= v@.skip(i + 1));
            match find_char(&rest, '/') {
                Some(j) => {
                    let r = string_of(&slice_chars(&v, 0, i + 1 + j));
                    assert(r@ =~= v@.take(i + 1 + j));
                    r
                },
                None => owned(action),
            }
        },
        None => owned(action),
    }
}

/// An action with every `/` written `%2F` (see [`escape_slashes`]).
pub fn escape_project(action: &str) -> (r: String)
    ensures
        r@ == escape_slashes(action@),
{
    let v = chars_of(action);
    let mut out = String::new();
    let mut i: usize = 0;
    while i < v.len()
        invariant
            0 <= i <= v.len(),
            v@ == action@,
            out@ == escape_slashes(v@.take(i as int)),
        decreases v.len() - i,
    {
        assert(v@.take(i + 1).drop_last() =~= v@.take(i as int));
        assert(v@.take(i + 1).last() == v@[i as int]);
        if v[i] == '/' {
            out = concat(out.as_str(), "%2F");
        } else {
            let one = string_of(&slice_chars(&v, i, i + 1));
            assert(one@ =~= seq![v@[i as int]]);
            out = concat(out.as_str(), one.as_str());
            assert(out@ =~= escape_slashes(v@.take(i as int)).push(v@[i as int]));
        }
        i = i + 1;
    }
    assert(v@.take(v.len() as int) =~= v@);
    out
}

fn github_commit_exec(base: &str, repo: &str, reference: &str, action: &str, replies: &Vec<Reply>, k: usize) -> (r: ForgeStep)
    requires
        k <= replies.len(),
    ensures
        step_is(r, github_commit(base@, repo@, reference@, action@, replies_view(replies@).skip(k as int))),
{
    let ghost rs = replies_view(replies@).skip(k as int);
    if k == replies.len() {
        return send_get(cat5(base, "/repos/", repo, "/commits/", reference), read_one("/sha"));
    }
    assert(rs[0] == reply_view(replies@[k as int]));
    let rp = &replies[k];
    if success(rp.code) {
        ForgeStep::Done(answer_first(&rp.values, 0))
    } else {
        ForgeStep::Done(fail(rp, base, action))
    }
}

fn github_branch_exec(base: &str, repo: &str, replies: &Vec<Reply>, k: usize, kind: u8) -> (r: ForgeStep)
    requires
        k <= replies.len(),
    ensures
        step_is(r, github_branch(base@, repo@, replies_view(replies@).skip(k as int), kind)),
{
    let ghost rs = replies_view(replies@).skip(k as int);
    if k == replies.len() {
        return send_get(cat3(base, "/repos/", repo), read_one("/default_branch"));
    }
    assert(rs[0] == reply_view(replies@[k as int]));
    let rp = &replies[k];
    if success(rp.code) {
        ForgeStep::Done(answer_first(&rp.values, kind))
    } else {
        ForgeStep::Done(main_branch(kind))
    }
}

fn github_release_exec(base: &str, repo: &str, action: &str, replies: &Vec<Reply>, k: usize) -> (r: ForgeStep)
    requires
        k <= replies.len(),
    ensures
        step_is(r, github_release(base@, repo@, action@, replies_view(replies@).skip(k as int))),
{
    let ghost rs = replies_view(replies@).skip(k as int);
    if k == replies.len() {
        return send_get(cat4(base, "/repos/", repo, "/releases/latest"), read_one("/tag_name"));
    }
    assert(rs[0] == reply_view(replies@[k as int]));
    let rp = &replies[k];
    if success(rp.code) {
        ForgeStep::Done(answer_first(&rp.values, 1))
    } else if rp.code == 404 {
        assert(rs.drop_first() =~= replies_view(replies@).skip(k + 1));
        github_branch_exec(base, repo, replies, k + 1, 1)
    } else {
        ForgeStep::Done(fail(rp, base, action))
    }
}

fn github_tags_exec(base: &str, repo: &str, action: &str, replies: &Vec<Reply>) -> (r: ForgeStep)
    ensures
        step_is(r, github_tags(base@, repo@, action@, replies_view(replies@))),
{
    if replies.len() == 0 {
        return send_get(cat4(base, "/repos/", repo, "/tags"), read_each("", "/name"));
    }
    let rp = &replies[0];
    if success(rp.code) {
        ForgeStep::Done(answer_tags(&rp.values))
    } else {
        ForgeStep::Done(fail(rp, base, action))
    }
}

fn azure_commit_exec(base: &str, replies: &Vec<Reply>) -> (r: ForgeStep)
    ensures
        step_is(r, azure_commit(base@, replies_view(replies@))),
{
    let ghost rs = replies_view(replies@);
    assert(rs.skip(0) =~= rs);
    let repo = owned("microsoft/azure-pipelines-tasks");
    match github_release_exec(base, repo.as_str(), repo.as_str(), replies, 0) {
        ForgeStep::Done(Ok(Fetched::Release(t))) => {
            let used: usize = if replies.len() > 0 && !success(replies[0].code) && replies[0].code == 404 {
                2
            } else {
                1
            };
            assert(rs.len() > 0);
            assert(used == github_release_len(rs));
            github_commit_exec(base, repo.as_str(), t.as_str(), repo.as_str(), replies, used)
        },
        other => other,
    }
}

fn project_root_exec(api: ForgeApi, base: &str, action: &str) -> (r: String)
    ensures
        r@ == project_root(api, base@, action@),
{
    if api == ForgeApi::GitLab {
        cat3(base, "/api/v4/projects/", escape_project(action).as_str())
    } else {
        cat3(base, "/api/v1/repos/", action)
    }
}

fn project_branch_exec(api: ForgeApi, root: &str, replies: &Vec<Reply>, k: usize, kind: u8) -> (r: ForgeStep)
    requires
        k <= replies.len(),
    ensures
        step_is(r, project_branch(api, root@, replies_view(replies@).skip(k as int), kind)),
{
    let ghost rs = replies_view(replies@).skip(k as int);
    if k == replies.len() {
        return send_get(owned(root), read_one("/default_branch"));
    }
    assert(rs[0] == reply_view(replies@[k as int]));
    let rp = &replies[k];
    if success(rp.code) {
        match &rp.values {
            Ok(None) => if api == ForgeApi::GitLab {
                ForgeStep::Done(main_branch(kind))
            } else {
                ForgeStep::Done(answer_first(&rp.values, kind))
            },
            _ => ForgeStep::Done(answer_first(&rp.values, kind)),
        }
    } else {
        ForgeStep::Done(main_branch(kind))
    }
}

fn project_release_exec(api: ForgeApi, root: &str, replies: &Vec<Reply>) -> (r: ForgeStep)
    ensures
        step_is(r, project_release(api, root@, replies_view(replies@))),
{
    let ghost rs = replies_view(replies@);
    if replies.len() == 0 {
        return send_get(concat(root, "/releases"), read_each("", "/tag_name"));
    }
    assert(rs.drop_first() =~= rs.skip(1));
    let rp = &replies[0];
    if success(rp.code) {
        match &rp.values {
            Err(m) => ForgeStep::Done(Err(PinnerError::Api(m.clone()))),
            Ok(Some(vs)) => if vs.len() > 0 {
                ForgeStep::Done(Ok(Fetched::Release(vs[0].clone())))
            } else {
                project_branch_exec(api, root, replies, 1, 1)
            },
            Ok(None) => project_branch_exec(api, root, replies, 1, 1),
        }
    } else {
        project_branch_exec(api, root, replies, 1, 1)
    }
}

fn project_commit_exec(api: ForgeApi, base: &str, root: &str, reference: &str, action: &str, replies: &Vec<Reply>) -> (r: ForgeStep)
    ensures
        step_is(r, project_commit(api, base@, root@, reference@, action@, replies_view(replies@))),
{
    if replies.len() == 0 {
        let mid = if api == ForgeApi::GitLab {
            "/repository/commits/"
        } else {
            "/commits/"
        };
        let reading = if api == ForgeApi::GitLab {
            read_one("/id")
        } else {
            read_one("/sha")
        };
        return send_get(cat3(root, mid, reference), reading);
    }
    let rp = &replies[0];
    if success(rp.code) {
        ForgeStep::Done(answer_first(&rp.values, 0))
    } else {
        ForgeStep::Done(fail(rp, base, action))
    }
}

fn project_tags_exec(api: ForgeApi, root: &str, replies: &Vec<Reply>) -> (r: ForgeStep)
    ensures
        step_is(r, project_tags(api, root@, replies_view(replies@))),
{
    if replies.len() == 0 {
        let tail = if api == ForgeApi::GitLab {
            "/repository/tags"
        } else {
            "/tags"
        };
        return send_get(concat(root, tail), read_each("", "/name"));
    }
    let rp = &replies[0];
    if success(rp.code) {
        ForgeStep::Done(answer_tags(&rp.values))
    } else {
        ForgeStep::Done(no_tags())
    }
}

fn split_project_exec(action: &str) -> (r: Option<(String, String)>)
    ensures
        match r {
            Some(p) => split_project(action@) == Some((p.0@, p.1@)),
            None => split_project(action@) is None,
        },
{
    let v = chars_of(action);
    match find_char(&v, '/') {
        Some(i) => {
            let a = string_of(&slice_chars(&v, 0, i));
            let b = string_of(&slice_chars(&v, i + 1, v.len()));
            assert(a@ =~= v@.take(i as int));
            assert(b@ =~= v@.skip(i + 1));
            Some((a, b))
        },
        None => None,
    }
}

fn not_found(status: &str, reference: &str) -> (r: Result<Fetched, PinnerError>)
    ensures
        answer_is(r, ref_not_found(status@, reference@)),
{
    let a = cat3("Bitbucket API error (HTTP ", status, "): Ref not found: ");
    Err(PinnerError::Api(concat(a.as_str(), reference)))
}

fn cloud_commit_exec(base: &str, action: &str, reference: &str, replies: &Vec<Reply>) -> (r: ForgeStep)
    ensures
        step_is(r, cloud_commit(base@, action@, reference@, replies_view(replies@))),
{
    let ghost rs = replies_view(replies@);
    if replies.len() == 0 {
        let reading = Reading::Refined(owned("/target/hash"), owned("/target/target/hash"));
        return send_get(cat5(base, "/repositories/", action, "/refs/tags/", reference), reading);
    }
    let rp = &replies[0];
    if success(rp.code) {
        match &rp.values {
            Ok(Some(vs)) => if vs.len() > 0 {
                let last = vs[vs.len() - 1].clone();
                assert(rs[0].2->Ok_0->Some_0.last() == last@);
                ForgeStep::Done(Ok(Fetched::Sha(DependencyRef::from_string(last))))
            } else {
                ForgeStep::Done(Err(PinnerError::Api(owned("reply lacks the expected field"))))
            },
            Ok(None) => ForgeStep::Done(Err(PinnerError::Api(owned("reply lacks the expected field")))),
            Err(m) => ForgeStep::Done(Err(PinnerError::Api(m.clone()))),
        }
    } else if replies.len() == 1 {
        send_get(cat5(base, "/repositories/", action, "/refs/branches/", reference), read_one("/target/hash"))
    } else {
        let r1 = &replies[1];
        if success(r1.code) {
            ForgeStep::Done(answer_first(&r1.values, 0))
        } else {
            ForgeStep::Done(not_found(r1.status.as_str(), reference))
        }
    }
}

fn server_root_exec(base: &str, project: &str, repo: &str) -> (r: String)
    ensures
        r@ == server_root(base@, project@, repo@),
{
    let a = cat4(base, "/rest/api/1.0/projects/", project, "/repos/");
    concat(a.as_str(), repo)
}

fn server_commit_exec(base: &str, action: &str, reference: &str, replies: &Vec<Reply>) -> (r: ForgeStep)
    ensures
        step_is(r, server_commit(base@, action@, reference@, replies_view(replies@))),
{
    match split_project_exec(action) {
        None => {
            let m = cat3("Invalid Bitbucket action format: ", action, ". Expected 'project/repo'");
            ForgeStep::Done(Err(PinnerError::Api(m)))
        },
        Some((project, repo)) => {
            let root = server_root_exec(base, project.as_str(), repo.as_str());
            if replies.len() == 0 {
                return send_get(cat3(root.as_str(), "/tags/", reference), read_one("/latestCommit"));
            }
            let rp = &replies[0];
            if success(rp.code) {
                ForgeStep::Done(answer_first(&rp.values, 0))
            } else if replies.len() == 1 {
                send_get(cat3(root.as_str(), "/branches?filterText=", reference), read_each("/values", "/latestCommit"))
            } else {
                let r1 = &replies[1];
                if success(r1.code) {
                    match &r1.values {
                        Err(m) => ForgeStep::Done(Err(PinnerError::Api(m.clone()))),
                        Ok(Some(vs)) => if vs.len() > 0 {
                            ForgeStep::Done(Ok(Fetched::Sha(DependencyRef::from_string(vs[0].clone()))))
                        } else {
                            ForgeStep::Done(not_found(r1.status.as_str(), reference))
                        },
                        Ok(None) => ForgeStep::Done(not_found(r1.status.as_str(), reference)),
                    }
                } else {
                    ForgeStep::Done(not_found(r1.status.as_str(), reference))
                }
            }
        },
    }
}

fn bitbucket_url(api: ForgeApi, base: &str, action: &str, tail_cloud: &str, tail_server: &str) -> (r: Option<String>)
    ensures
        match r {
            Some(u) => if api == ForgeApi::BitbucketCloud {
                u@ == base@ + "/repositories/"@ + action@ + tail_cloud@
            } else {
                split_project(action@) matches Some(pr) && u@ == server_root(base@, pr.0, pr.1) + tail_server@
            },
            None => api != ForgeApi::BitbucketCloud && split_project(action@) is None,
        },
{
    if api == ForgeApi::BitbucketCloud {
        Some(cat4(base, "/repositories/", action, tail_cloud))
    } else {
        match split_project_exec(action) {
            Some((p, r)) => {
                let root = server_root_exec(base, p.as_str(), r.as_str());
                Some(concat(root.as_str(), tail_server))
            },
            None => None,
        }
    }
}

fn bitbucket_tags_exec(api: ForgeApi, base: &str, action: &str, replies: &Vec<Reply>) -> (r: ForgeStep)
    ensures
        step_is(r, bitbucket_tags(api, base@, action@, replies_view(replies@))),
{
    proof {
        reveal_strlit("/refs/tags");
        reveal_strlit("/tags");
    }
    match bitbucket_url(api, base, action, "/refs/tags", "/tags") {
        None => ForgeStep::Done(no_tags()),
        Some(u) => {
            if replies.len() == 0 {
                let reading = if api == ForgeApi::BitbucketCloud {
                    read_each("/values", "/name")
                } else {
                    read_each("/values", "/display_id")
                };
                return send_get(u, reading);
            }
            let rp = &replies[0];
            if success(rp.code) {
                ForgeStep::Done(answer_tags(&rp.values))
            } else {
                ForgeStep::Done(no_tags())
            }
        },
    }
}

fn bitbucket_branch_exec(api: ForgeApi, base: &str, action: &str, replies: &Vec<Reply>, kind: u8) -> (r: ForgeStep)
    ensures
        step_is(r, bitbucket_branch(api, base@, action@, replies_view(replies@), kind)),
{
    proof {
        reveal_strlit("");
    }
    match bitbucket_url(api, base, action, "", "") {
        None => ForgeStep::Done(main_branch(kind)),
        Some(u) => {
            assert(u@ + ""@ =~= u@);
            if replies.len() == 0 {
                let reading = if api == ForgeApi::BitbucketCloud {
                    read_one("/mainbranch/name")
                } else {
                    read_one("/defaultBranch")
                };
                return send_get(u, reading);
            }
            let rp = &replies[0];
            if success(rp.code) {
                match &rp.values {
                    Ok(None) => if api == ForgeApi::BitbucketCloud {
                        ForgeStep::Done(main_branch(kind))
                    } else {
                        ForgeStep::Done(answer_first(&rp.values, kind))
                    },
                    _ => ForgeStep::Done(answer_first(&rp.values, kind)),
                }
            } else {
                ForgeStep::Done(main_branch(kind))
            }
        },
    }
}

fn orb_query_text(latest: bool) -> (r: String)
    ensures
        r@ == orb_query(if latest {
            "1"@
        } else {
            "100"@
        }),
{
    let count = if latest {
        "1"
    } else {
        "100"
    };
    cat3("
            query GetOrb($name: String!) {
                orb(name: $name) {
                    versions(count: ", count, ") {
                        version
                    }
                }
            }
        ")
}

fn circleci_exec(base: &str, action: &str, latest: bool, replies: &Vec<Reply>) -> (r: ForgeStep)
    ensures
        step_is(r, circleci_versions(base@, action@, latest, replies_view(replies@))),
{
    if replies.len() == 0 {
        let q = json_string(orb_query_text(latest).as_str());
        let n = json_string(action);
        let a = cat3("{\"query\":", q.as_str(), ",\"variables\":{\"name\":");
        let body = cat3(a.as_str(), n.as_str(), "}}");
        return ForgeStep::Send(Request::Post { url: owned(base), body, reading: read_each("/data/orb/versions", "/version") });
    }
    let rp = &replies[0];
    if success(rp.code) {
        match &rp.values {
            Err(m) => ForgeStep::Done(Err(PinnerError::Api(m.clone()))),
            Ok(Some(vs)) => if !latest {
                ForgeStep::Done(Ok(Fetched::Tags(copy_texts(vs))))
            } else if vs.len() > 0 {
                ForgeStep::Done(Ok(Fetched::Release(vs[0].clone())))
            } else {
                ForgeStep::Done(Err(PinnerError::Api(concat("Orb not found: ", action))))
            },
            Ok(None) => ForgeStep::Done(Err(PinnerError::Api(concat("Orb not found: ", action)))),
        }
    } else {
        let m = cat4("CircleCI API error (HTTP ", rp.status.as_str(), "): ", action);
        ForgeStep::Done(Err(PinnerError::Api(m)))
    }
}

/// What comes next for a repository request to an API, after the replies so
/// far (see [`forge_flow`]).
pub fn forge_step(api: ForgeApi, base: &str, fetch: &Fetch, action: &DependencyName, replies: &Vec<Reply>) -> (r: ForgeStep)
    ensures
        step_is(r, forge_flow(api, base@, *fetch, action.0@, replies_view(replies@))),
{
    let a = action.0.as_str();
    let ghost rs = replies_view(replies@);
    assert(rs.skip(0) =~= rs);
    match fetch {
        Fetch::Digest { .. } => ForgeStep::Done(Err(PinnerError::Api(owned("image digests are not served by forges")))),
        Fetch::CommitSha { reference } => match api {
            ForgeApi::GitHub => {
                let repo = repository_of(a);
                github_commit_exec(base, repo.as_str(), reference.as_str(), a, replies, 0)
            },
            ForgeApi::Azure => azure_commit_exec(base, replies),
            ForgeApi::GitLab | ForgeApi::Forgejo => {
                let root = project_root_exec(api, base, a);
                project_commit_exec(api, base, root.as_str(), reference.as_str(), a, replies)
            },
            ForgeApi::BitbucketCloud => cloud_commit_exec(base, a, reference.as_str(), replies),
            ForgeApi::BitbucketServer => server_commit_exec(base, a, reference.as_str(), replies),
            ForgeApi::CircleCi => ForgeStep::Done(Err(PinnerError::Api(owned("CircleCI Orbs do not support Git SHA pinning")))),
        },
        Fetch::LatestRelease => match api {
            ForgeApi::GitHub => {
                let repo = repository_of(a);
                github_release_exec(base, repo.as_str(), a, replies, 0)
            },
            ForgeApi::Azure => {
                let repo = owned("microsoft/azure-pipelines-tasks");
                github_release_exec(base, repo.as_str(), repo.as_str(), replies, 0)
            },
            ForgeApi::GitLab | ForgeApi::Forgejo => {
                let root = project_root_exec(api, base, a);
                project_release_exec(api, root.as_str(), replies)
            },
            ForgeApi::BitbucketCloud | ForgeApi::BitbucketServer => bitbucket_branch_exec(api, base, a, replies, 1),
            ForgeApi::CircleCi => circleci_exec(base, a, true, replies),
        },
        Fetch::Tags => match api {
            ForgeApi::GitHub => {
                let repo = repository_of(a);
                github_tags_exec(base, repo.as_str(), a, replies)
            },
            ForgeApi::Azure => {
                let repo = owned("microsoft/azure-pipelines-tasks");
                github_tags_exec(base, repo.as_str(), repo.as_str(), replies)
            },
            ForgeApi::GitLab | ForgeApi::Forgejo => {
                let root = project_root_exec(api, base, a);
                project_tags_exec(api, root.as_str(), replies)
            },
            ForgeApi::BitbucketCloud | ForgeApi::BitbucketServer => bitbucket_tags_exec(api, base, a, replies),
            ForgeApi::CircleCi => circleci_exec(base, a, false, replies),
        },
        Fetch::DefaultBranch => match api {
            ForgeApi::GitHub => {
                let repo = repository_of(a);
                github_branch_exec(base, repo.as_str(), replies, 0, 2)
            },
            ForgeApi::Azure => {
                let repo = owned("microsoft/azure-pipelines-tasks");
                github_branch_exec(base, repo.as_str(), replies, 0, 2)
            },
            ForgeApi::GitLab | ForgeApi::Forgejo => {
                let root = project_root_exec(api, base, a);
                project_branch_exec(api, root.as_str(), replies, 0, 2)
            },
            ForgeApi::BitbucketCloud | ForgeApi::BitbucketServer => bitbucket_branch_exec(api, base, a, replies, 2),
            ForgeApi::CircleCi => ForgeStep::Done(Err(PinnerError::Api(owned("CircleCI Orbs do not have default branches")))),
        },
    }
}

/// The API behind a route of [`crate::resolver::routing::default_routes`]
/// and its base URL: GitHub and Azure at the GitHub URL, Bitbucket Cloud when
/// its URL names `bitbucket.org` and Data Center otherwise, then GitLab,
/// Forgejo and CircleCI.
pub open spec fn api_of_route(config: UnifiedProviderConfig, route: int) -> (ForgeApi, Seq<char>) {
    if route == 1 {
        (ForgeApi::Azure, config.github_url@)
    } else if route == 2 {
        (if contains(config.bitbucket_url@, "bitbucket.org"@) {
            ForgeApi::BitbucketCloud
        } else {
            ForgeApi::BitbucketServer
        }, config.bitbucket_url@)
    } else if route == 3 {
        (ForgeApi::GitLab, config.gitlab_url@)
    } else if route == 4 {
        (ForgeApi::Forgejo, config.forgejo_url@)
    } else if route == 5 {
        (ForgeApi::CircleCi, config.circleci_url@)
    } else {
        (ForgeApi::GitHub, config.github_url@)
    }
}

/// The API and base URL of a route (see [`api_of_route`]).
pub fn api_for_route(config: &UnifiedProviderConfig, route: usize) -> (r: (ForgeApi, String))
    ensures
        (r.0, r.1@) == api_of_route(*config, route as int),
{
    if route == 1 {
        (ForgeApi::Azure, config.github_url.clone())
    } else if route == 2 {
        let cloud = contains_exec(&chars_of(config.bitbucket_url.as_str()), &chars_of("bitbucket.org"));
        (if cloud {
            ForgeApi::BitbucketCloud
        } else {
            ForgeApi::BitbucketServer
        }, config.bitbucket_url.clone())
    } else if route == 3 {
        (ForgeApi::GitLab, config.gitlab_url.clone())
    } else if route == 4 {
        (ForgeApi::Forgejo, config.forgejo_url.clone())
    } else if route == 5 {
        (ForgeApi::CircleCi, config.circleci_url.clone())
    } else {
        (ForgeApi::GitHub, config.github_url.clone())
    }
}

/// The token configured for an API (Azure tasks are read from GitHub).
pub open spec fn token_for(config: UnifiedProviderConfig, api: ForgeApi) -> Option<Seq<char>> {
    match api {
        ForgeApi::GitHub | ForgeApi::Azure => opt_text(config.github_token),
        ForgeApi::BitbucketCloud | ForgeApi::BitbucketServer => opt_text(config.bitbucket_token),
        ForgeApi::GitLab => opt_text(config.gitlab_token),
        ForgeApi::Forgejo => opt_text(config.forgejo_token),
        ForgeApi::CircleCi => opt_text(config.circleci_token),
    }
}

/// The scheme an API's token is sent with: `Bearer`, `token` for Forgejo,
/// none for CircleCI (whose token also goes in a `Circle-Token` header).
pub open spec fn auth_scheme(api: ForgeApi) -> Seq<char> {
    match api {
        ForgeApi::Forgejo => "token "@,
        ForgeApi::CircleCi => ""@,
        _ => "Bearer "@,
    }
}

/// The `Authorization` header of requests to an API: its scheme and the
/// configured token; none without a token.
pub fn authorization(config: &UnifiedProviderConfig, api: ForgeApi) -> (r: Option<String>)
    ensures
        opt_text(r) == match token_for(*config, api) {
            Some(t) => Some(auth_scheme(api) + t),
            None => None,
        },
{
    let token = match api {
        ForgeApi::GitHub | ForgeApi::Azure => &config.github_token,
        ForgeApi::BitbucketCloud | ForgeApi::BitbucketServer => &config.bitbucket_token,
        ForgeApi::GitLab => &config.gitlab_token,
        ForgeApi::Forgejo => &config.forgejo_token,
        ForgeApi::CircleCi => &config.circleci_token,
    };
    let scheme = match api {
        ForgeApi::Forgejo => "token ",
        ForgeApi::CircleCi => "",
        _ => "Bearer ",
    };
    match token {
        Some(t) => Some(concat(scheme, t.as_str())),
        None => None,
    }
}

} // verus!
