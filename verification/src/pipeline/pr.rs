//! The decisions behind opening a pull (or merge) request with the pinned
//! files: which files changed, where the repository lives, and where the
//! request goes. Running git and calling the hosting APIs happens in the
//! executable.
use crate::text::{
    chars_of, concat, contains, contains_exec, first_index_of, has_prefix, has_suffix, is_ws,
    last_index_of, owned, find_char, rfind_char, slice_chars, starts_with, ends_with, string_of,
    trim, trim_chars, char_is_ws,
};
use crate::scanner::syntax::{lines_of, text_lines};
use crate::domain::update::opt_view;
use vstd::prelude::*;

verus! {

/// A repository path split at its last `/` into owner and name, after
/// dropping a `.git` suffix.
pub open spec fn owner_and_repo(path: Seq<char>) -> Option<(Seq<char>, Seq<char>)> {
    let p = if has_suffix(path, ".git"@) {
        path.take(path.len() - ".git"@.len())
    } else {
        path
    };
    match last_index_of(p, '/') {
        Some(j) => Some((p.take(j), p.skip(j + 1))),
        None => None,
    }
}

/// Host, owner and repository of a git remote URL: `git@host:owner/repo.git`
/// or `https://host/owner/repo.git` (owners may span several segments, as
/// GitLab groups do).
pub open spec fn git_remote(url: Seq<char>) -> Option<(Seq<char>, Seq<char>, Seq<char>)> {
    let u = trim(url);
    let (rest, sep) = if has_prefix(u, "git@"@) {
        (u.skip("git@"@.len() as int), ':')
    } else {
        (u.skip("https://"@.len() as int), '/')
    };
    if !has_prefix(u, "git@"@) && !has_prefix(u, "https://"@) {
        None
    } else {
        match first_index_of(rest, sep) {
            Some(i) => match owner_and_repo(rest.skip(i + 1)) {
                Some(or) => Some((rest.take(i), or.0, or.1)),
                None => None,
            },
            None => None,
        }
    }
}

fn owner_and_repo_exec(path: &Vec<char>) -> (r: Option<(String, String)>)
    ensures
        match r {
            Some(x) => owner_and_repo(path@) == Some((x.0@, x.1@)),
            None => owner_and_repo(path@) is None,
        },
{
    proof {
        reveal_strlit(".git");
    }
    let p = if ends_with(path, &chars_of(".git")) {
        slice_chars(path, 0, path.len() - 4)
    } else {
        slice_chars(path, 0, path.len())
    };
    assert(p@ =~= (if has_suffix(path@, ".git"@) {
        path@.take(path@.len() - 4)
    } else {
        path@
    }));
    match rfind_char(&p, '/') {
        Some(j) => {
            let owner = slice_chars(&p, 0, j);
            let repo = slice_chars(&p, j + 1, p.len());
            assert(owner@ =~= p@.take(j as int));
            assert(repo@ =~= p@.skip(j + 1));
            Some((string_of(&owner), string_of(&repo)))
        },
        None => None,
    }
}

/// Parses a git remote origin URL into host, owner and repository name.
/// Supports both SSH (`git@...`) and HTTPS URLs.
pub fn parse_git_remote(url: &str) -> (r: Option<(String, String, String)>)
    ensures
        match r {
            Some(x) => git_remote(url@) == Some((x.0@, x.1@, x.2@)),
            None => git_remote(url@) is None,
        },
{
    proof {
        reveal_strlit("git@");
        reveal_strlit("https://");
    }
    let u = trim_chars(&chars_of(url));
    let (rest, sep) = if starts_with(&u, &chars_of("git@")) {
        (slice_chars(&u, 4, u.len()), ':')
    } else if starts_with(&u, &chars_of("https://")) {
        (slice_chars(&u, 8, u.len()), '/')
    } else {
        return None;
    };
    assert(rest@ =~= (if has_prefix(u@, "git@"@) {
        u@.skip(4)
    } else {
        u@.skip(8)
    }));
    match find_char(&rest, sep) {
        Some(i) => {
            let path = slice_chars(&rest, i + 1, rest.len());
            assert(path@ =~= rest@.skip(i + 1));
            match owner_and_repo_exec(&path) {
                Some((owner, repo)) => {
                    let host = slice_chars(&rest, 0, i);
                    assert(host@ =~= rest@.take(i as int));
                    Some((string_of(&host), owner, repo))
                },
                None => None,
            }
        },
        None => None,
    }
}

// ---------------------------------------------------------------------------
// Changed files
// ---------------------------------------------------------------------------

/// The whitespace-separated words of a line, in order (as
/// `str::split_whitespace` yields them).
pub open spec fn words(s: Seq<char>) -> Seq<Seq<char>>
    decreases s.len(),
{
    if s.len() == 0 {
        Seq::empty()
    } else {
        let prev = words(s.drop_last());
        let c = s.last();
        if is_ws(c) {
            prev
        } else if s.len() >= 2 && !is_ws(s[s.len() - 2]) && prev.len() > 0 {
            prev.update(prev.len() - 1, prev.last().push(c))
        } else {
            prev.push(seq![c])
        }
    }
}

/// The file named on a line of `git status --porcelain`: the last word of a
/// line of at least two words.
pub open spec fn status_file(line: Seq<char>) -> Option<Seq<char>> {
    if words(line).len() >= 2 {
        Some(words(line).last())
    } else {
        None
    }
}

/// The files named by the lines of a porcelain status, in order.
pub open spec fn status_files(lines: Seq<Seq<char>>) -> Seq<Seq<char>>
    decreases lines.len(),
{
    if lines.len() == 0 {
        Seq::empty()
    } else {
        let prev = status_files(lines.drop_last());
        match status_file(lines.last()) {
            Some(f) => prev.push(f),
            None => prev,
        }
    }
}

fn line_words(line: &Vec<char>) -> (r: Vec<Vec<char>>)
    ensures
        r@.map_values(|w: Vec<char>| w@) == words(line@),
{
    let mut out: Vec<Vec<char>> = Vec::new();
    let mut cur: Vec<char> = Vec::new();
    let mut in_word = false;
    let mut i: usize = 0;
    while i < line.len()
        invariant
            0 <= i <= line.len(),
            in_word == (i > 0 && !is_ws(line@[i - 1])),
            in_word ==> words(line@.take(i as int)).len() > 0 && out@.map_values(|w: Vec<char>| w@)
                == words(line@.take(i as int)).drop_last() && cur@ == words(line@.take(i as int)).last(),
            !in_word ==> out@.map_values(|w: Vec<char>| w@) == words(line@.take(i as int)),
        decreases line.len() - i,
    {
        let c = line[i];
        let ghost prefix = line@.take(i + 1);
        assert(prefix.drop_last() =~= line@.take(i as int));
        assert(prefix.last() == c);
        if char_is_ws(c) {
            if in_word {
                let ghost before = out@.map_values(|w: Vec<char>| w@);
                out.push(cur);
                cur = Vec::new();
                assert(out@.map_values(|w: Vec<char>| w@) =~= before.push(words(line@.take(i as int)).last()));
                assert(words(line@.take(i as int)) =~= before.push(words(line@.take(i as int)).last()));
            }
            in_word = false;
        } else {
            if in_word {
                assert(prefix.len() >= 2 && prefix[prefix.len() - 2] == line@[i - 1]);
                cur.push(c);
            } else {
                cur = Vec::new();
                cur.push(c);
                assert(cur@ =~= seq![c]);
            }
            in_word = true;
        }
        i = i + 1;
    }
    assert(line@.take(line.len() as int) =~= line@);
    if in_word {
        let ghost before = out@.map_values(|w: Vec<char>| w@);
        out.push(cur);
        assert(out@.map_values(|w: Vec<char>| w@) =~= before.push(words(line@).last()));
        assert(words(line@) =~= before.push(words(line@).last()));
    }
    out
}

/// The files that `git status --porcelain` reports as changed, in order.
pub fn modified_files(status: &str) -> (r: Vec<String>)
    ensures
        r@.map_values(|f: String| f@) == status_files(text_lines(status@)),
{
    let lines = lines_of(status);
    let ghost lv = lines@.map_values(|l: String| l@);
    let mut out: Vec<String> = Vec::new();
    let mut i: usize = 0;
    while i < lines.len()
        invariant
            0 <= i <= lines.len(),
            lv == lines@.map_values(|l: String| l@),
            out@.map_values(|f: String| f@) == status_files(lv.take(i as int)),
        decreases lines.len() - i,
    {
        assert(lv.take(i + 1).drop_last() =~= lv.take(i as int));
        assert(lv.take(i + 1).last() == lines@[i as int]@);
        let ws = line_words(&chars_of(lines[i].as_str()));
        if ws.len() >= 2 {
            let ghost wv = ws@.map_values(|w: Vec<char>| w@);
            assert(wv.last() == ws@[ws.len() - 1]@);
            let ghost before = out@.map_values(|f: String| f@);
            out.push(string_of(&ws[ws.len() - 1]));
            assert(out@.map_values(|f: String| f@) =~= before.push(wv.last()));
        }
        i = i + 1;
    }
    assert(lv.take(lines.len() as int) =~= lv);
    out
}

// ---------------------------------------------------------------------------
// Where the request goes
// ---------------------------------------------------------------------------

/// The branch to merge into: what `origin/HEAD` names, or `main`.
pub open spec fn base_branch(origin_head: Option<Seq<char>>) -> Seq<char> {
    match origin_head {
        Some(h) => if has_prefix(h, "origin/"@) {
            h.skip("origin/"@.len() as int)
        } else {
            "main"@
        },
        None => "main"@,
    }
}

/// The branch to merge into, from the output of
/// `git rev-parse --abbrev-ref origin/HEAD` (if it succeeded).
pub fn target_branch(origin_head: Option<String>) -> (r: String)
    ensures
        r@ == base_branch(opt_view(origin_head)),
{
    proof {
        reveal_strlit("origin/");
    }
    match origin_head {
        Some(h) => {
            let v = chars_of(h.as_str());
            if starts_with(&v, &chars_of("origin/")) {
                let b = slice_chars(&v, 7, v.len());
                assert(b@ =~= v@.skip(7));
                string_of(&b)
            } else {
                owned("main")
            }
        },
        None => owned("main"),
    }
}

/// The hosting service a request is opened on.
#[derive(Debug, Clone, Copy, PartialEq, Eq, Structural)]
pub enum PrHost {
    GitHub,
    GitLab,
    Unsupported,
}

/// GitHub when the host is github.com or a GitHub API is configured, else
/// GitLab when the host is gitlab.com or a GitLab API is configured.
pub open spec fn pr_host(host: Seq<char>, github_api: bool, gitlab_api: bool) -> PrHost {
    if contains(host, "github.com"@) || github_api {
        PrHost::GitHub
    } else if contains(host, "gitlab.com"@) || gitlab_api {
        PrHost::GitLab
    } else {
        PrHost::Unsupported
    }
}

/// Chooses the hosting service for a remote host; `github_api` and
/// `gitlab_api` tell whether a custom API URL is configured for each.
pub fn choose_pr_host(host: &str, github_api: bool, gitlab_api: bool) -> (r: PrHost)
    ensures
        r == pr_host(host@, github_api, gitlab_api),
{
    let h = chars_of(host);
    if contains_exec(&h, &chars_of("github.com")) || github_api {
        PrHost::GitHub
    } else if contains_exec(&h, &chars_of("gitlab.com")) || gitlab_api {
        PrHost::GitLab
    } else {
        PrHost::Unsupported
    }
}

/// Every `/` written as `%2F`.
pub open spec fn escape_slashes(s: Seq<char>) -> Seq<char>
    decreases s.len(),
{
    if s.len() == 0 {
        Seq::empty()
    } else if s.last() == '/' {
        escape_slashes(s.drop_last()) + "%2F"@
    } else {
        escape_slashes(s.drop_last()).push(s.last())
    }
}

/// The endpoint that opens the request: GitHub's pulls of `owner/repo`, or
/// GitLab's merge requests of the URL-encoded project path.
pub open spec fn pr_endpoint(host: PrHost, api_base: Seq<char>, owner: Seq<char>, repo: Seq<char>) -> Seq<char> {
    match host {
        PrHost::GitHub => api_base + "/repos/"@ + owner + "/"@ + repo + "/pulls"@,
        _ => api_base + "/projects/"@ + escape_slashes(owner + "/"@ + repo) + "/merge_requests"@,
    }
}

fn escape_slashes_exec(s: &Vec<char>) -> (r: Vec<char>)
    ensures
        r@ == escape_slashes(s@),
{
    let mut out: Vec<char> = Vec::new();
    let mut i: usize = 0;
    while i < s.len()
        invariant
            0 <= i <= s.len(),
            out@ == escape_slashes(s@.take(i as int)),
        decreases s.len() - i,
    {
        assert(s@.take(i + 1).drop_last() =~= s@.take(i as int));
        assert(s@.take(i + 1).last() == s@[i as int]);
        if s[i] == '/' {
            crate::text::extend_chars(&mut out, &chars_of("%2F"));
        } else {
            out.push(s[i]);
        }
        i = i + 1;
    }
    assert(s@.take(s.len() as int) =~= s@);
    out
}

/// The URL that opens a pull or merge request (see [`pr_endpoint`]).
pub fn pr_url(host: PrHost, api_base: &str, owner: &str, repo: &str) -> (r: String)
    ensures
        r@ == pr_endpoint(host, api_base@, owner@, repo@),
{
    match host {
        PrHost::GitHub => {
            let a = concat(api_base, "/repos/");
            let b = concat(a.as_str(), owner);
            let c = concat(b.as_str(), "/");
            let d = concat(c.as_str(), repo);
            concat(d.as_str(), "/pulls")
        },
        _ => {
            let p = concat(owner, "/");
            let p = concat(p.as_str(), repo);
            let e = string_of(&escape_slashes_exec(&chars_of(p.as_str())));
            let a = concat(api_base, "/projects/");
            let b = concat(a.as_str(), e.as_str());
            concat(b.as_str(), "/merge_requests")
        },
    }
}

} // verus!
