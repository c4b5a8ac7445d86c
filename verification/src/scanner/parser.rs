//! Turning the captures of a workflow file into update tasks.
use crate::domain::dependency::{CiProvider, DependencyName};
use crate::domain::update::{opt_view, UpdateTask};
use crate::error::PinnerError;

use crate::text::{
    chars_of, concat, contains, contains_exec, find_char, first_index_of, has_prefix, last_index_of,
    owned, rfind_char, slice_chars, starts_with, str_eq, string_of, trim, trim_chars,
};
use vstd::prelude::*;

verus! {

// ---------------------------------------------------------------------------
// Providers
// ---------------------------------------------------------------------------

/// The lowercase form of a text, as `str::to_lowercase` computes it (Unicode
/// case mapping).
pub uninterp spec fn lowercase(s: Seq<char>) -> Seq<char>;

/// `str::to_lowercase`. Trusted: the result is named by `lowercase`.
#[verifier::external_body]
pub(crate) fn to_lowercase(s: &str) -> (r: String)
    ensures
        r@ == lowercase(s@),
{
    s.to_lowercase()
}

/// The final component of a path, as `std::path::Path::file_name` reads it
/// (none for a path that ends in `..` or is a root).
pub uninterp spec fn path_file_name(p: Seq<char>) -> Option<Seq<char>>;

/// `std::path::Path::file_name` of a path given as text. Trusted: the result
/// is named by `path_file_name`.
#[verifier::external_body]
pub(crate) fn file_name(p: &str) -> (r: Option<String>)
    ensures
        opt_view(r) == path_file_name(p@),
{
    std::path::Path::new(p).file_name().and_then(|n| n.to_str()).map(|n| n.to_string())
}

/// File names of Kubernetes manifests.
pub open spec fn is_k8s_manifest(f: Seq<char>) -> bool {
    f == "pod.yaml"@ || f == "pod.yml"@ || f == "deployment.yaml"@ || f == "deployment.yml"@ || f
        == "statefulset.yaml"@ || f == "statefulset.yml"@ || f == "daemonset.yaml"@ || f
        == "daemonset.yml"@ || f == "replicaset.yaml"@ || f == "replicaset.yml"@ || f
        == "job.yaml"@ || f == "job.yml"@ || f == "cronjob.yaml"@ || f == "cronjob.yml"@
}

/// The CI provider of a file, from the standard locations in its (lowercased)
/// path, in this order of precedence, or else from the name of a Kubernetes
/// manifest.
pub open spec fn provider_for(path: Seq<char>) -> CiProvider {
    let l = lowercase(path);
    if contains(l, ".github/workflows"@) {
        CiProvider::GitHub
    } else if contains(l, ".forgejo/workflows"@) {
        CiProvider::Forgejo
    } else if contains(l, ".gitea/workflows"@) {
        CiProvider::Gitea
    } else if contains(l, ".gitlab-ci"@) {
        CiProvider::GitLab
    } else if contains(l, "bitbucket-pipelines"@) {
        CiProvider::Bitbucket
    } else if contains(l, ".circleci"@) {
        CiProvider::CircleCI
    } else if contains(l, "azure-pipelines"@) {
        CiProvider::AzureDevOps
    } else if contains(l, "buildspec"@) {
        CiProvider::AwsCodeBuild
    } else if contains(l, "tekton"@) {
        CiProvider::Tekton
    } else if contains(l, "kubernetes"@) || contains(l, "k8s"@) {
        CiProvider::Kubernetes
    } else {
        match path_file_name(path) {
            Some(f) => if is_k8s_manifest(lowercase(f)) {
                CiProvider::Kubernetes
            } else {
                CiProvider::Unknown
            },
            None => CiProvider::Unknown,
        }
    }
}

/// The YAML keys that hold dependencies for each provider.
pub open spec fn key_supported(p: CiProvider, key: Seq<char>) -> bool {
    match p {
        CiProvider::GitHub | CiProvider::Forgejo | CiProvider::Gitea => key == "uses"@ || key
            == "image"@,
        CiProvider::GitLab => key == "include"@ || key == "image"@ || key == "ref"@,
        CiProvider::Bitbucket => key == "pipe"@ || key == "image"@,
        CiProvider::CircleCI => key == "image"@ || key == "orbs"@,
        CiProvider::AzureDevOps => key == "task"@ || key == "template"@ || key == "image"@,
        CiProvider::AwsCodeBuild => key == "image"@,
        CiProvider::Tekton => key == "bundle"@ || key == "image"@,
        CiProvider::Kubernetes => key == "image"@,
        CiProvider::Unknown => true,
    }
}

fn has(l: &Vec<char>, p: &str) -> (r: bool)
    ensures
        r == contains(l@, p@),
{
    contains_exec(l, &chars_of(p))
}

fn is_k8s_manifest_exec(f: &str) -> (r: bool)
    ensures
        r == is_k8s_manifest(f@),
{
    str_eq(f, "pod.yaml") || str_eq(f, "pod.yml") || str_eq(f, "deployment.yaml") || str_eq(
        f,
        "deployment.yml",
    ) || str_eq(f, "statefulset.yaml") || str_eq(f, "statefulset.yml") || str_eq(
        f,
        "daemonset.yaml",
    ) || str_eq(f, "daemonset.yml") || str_eq(f, "replicaset.yaml") || str_eq(
        f,
        "replicaset.yml",
    ) || str_eq(f, "job.yaml") || str_eq(f, "job.yml") || str_eq(f, "cronjob.yaml") || str_eq(
        f,
        "cronjob.yml",
    )
}

impl CiProvider {
    /// Detects the CI provider based on the file path, from standard CI/CD
    /// directory structures (e.g., `.github/workflows`) and Kubernetes
    /// manifest names.
    pub fn from_path(path: &str) -> (r: CiProvider)
        ensures
            r == provider_for(path@),
    {
        let lower = to_lowercase(path);
        let l = chars_of(lower.as_str());
        if has(&l, ".github/workflows") {
            CiProvider::GitHub
        } else if has(&l, ".forgejo/workflows") {
            CiProvider::Forgejo
        } else if has(&l, ".gitea/workflows") {
            CiProvider::Gitea
        } else if has(&l, ".gitlab-ci") {
            CiProvider::GitLab
        } else if has(&l, "bitbucket-pipelines") {
            CiProvider::Bitbucket
        } else if has(&l, ".circleci") {
            CiProvider::CircleCI
        } else if has(&l, "azure-pipelines") {
            CiProvider::AzureDevOps
        } else if has(&l, "buildspec") {
            CiProvider::AwsCodeBuild
        } else if has(&l, "tekton") {
            CiProvider::Tekton
        } else if has(&l, "kubernetes") || has(&l, "k8s") {
            CiProvider::Kubernetes
        } else {
            match file_name(path) {
                Some(f) => {
                    let fl = to_lowercase(f.as_str());
                    if is_k8s_manifest_exec(fl.as_str()) {
                        CiProvider::Kubernetes
                    } else {
                        CiProvider::Unknown
                    }
                },
                None => CiProvider::Unknown,
            }
        }
    }

    /// Returns true if the given YAML key holds a dependency for this provider
    /// (GitHub Actions uses `uses`, Bitbucket Pipelines `pipe`, ...); every key
    /// counts for an unknown provider.
    pub fn supports_key(&self, key: &str) -> (r: bool)
        ensures
            r == key_supported(*self, key@),
    {
        match self {
            CiProvider::GitHub | CiProvider::Forgejo | CiProvider::Gitea => str_eq(key, "uses")
                || str_eq(key, "image"),
            CiProvider::GitLab => str_eq(key, "include") || str_eq(key, "image") || str_eq(key, "ref"),
            CiProvider::Bitbucket => str_eq(key, "pipe") || str_eq(key, "image"),
            CiProvider::CircleCI => str_eq(key, "image") || str_eq(key, "orbs"),
            CiProvider::AzureDevOps => str_eq(key, "task") || str_eq(key, "template") || str_eq(
                key,
                "image",
            ),
            CiProvider::AwsCodeBuild => str_eq(key, "image"),
            CiProvider::Tekton => str_eq(key, "bundle") || str_eq(key, "image"),
            CiProvider::Kubernetes => str_eq(key, "image"),
            CiProvider::Unknown => true,
        }
    }
}

// ---------------------------------------------------------------------------
// Values and comments
// ---------------------------------------------------------------------------

/// A value with surrounding whitespace and one pair of matching quotes
/// removed.
pub open spec fn unquoted(s: Seq<char>) -> Seq<char> {
    let t = trim(s);
    if t.len() >= 2 && ((t[0] == '\'' && t.last() == '\'') || (t[0] == '"' && t.last() == '"')) {
        t.subrange(1, t.len() - 1)
    } else {
        t
    }
}

/// Removes surrounding whitespace and quotes from a YAML scalar.
pub fn unquote(s: &str) -> (r: String)
    ensures
        r@ == unquoted(s@),
{
    let t = trim_chars(&chars_of(s));
    let n = t.len();
    if n >= 2 && ((t[0] == '\'' && t[n - 1] == '\'') || (t[0] == '"' && t[n - 1] == '"')) {
        string_of(&slice_chars(&t, 1, n - 1))
    } else {
        string_of(&t)
    }
}

/// A line whose trimmed text starts with `#`.
pub open spec fn is_comment_line(l: Seq<char>) -> bool {
    has_prefix(trim(l), "#"@)
}

/// Where the run of comment lines ending at `idx` starts (`idx + 1` when line
/// `idx` is no comment).
pub open spec fn run_start(ls: Seq<Seq<char>>, idx: int) -> int
    decreases idx + 1,
{
    if 0 <= idx < ls.len() && is_comment_line(ls[idx]) {
        run_start(ls, idx - 1)
    } else {
        idx + 1
    }
}

/// Texts joined by newlines.
pub open spec fn joined_lines(ls: Seq<Seq<char>>) -> Seq<char>
    decreases ls.len(),
{
    if ls.len() == 0 {
        Seq::empty()
    } else if ls.len() == 1 {
        ls[0]
    } else {
        joined_lines(ls.drop_last()) + "\n"@ + ls.last()
    }
}

/// The comment lines directly above (1-based) line `line`, trimmed and
/// joined by newlines, if there are any.
pub open spec fn preceding_comments(ls: Seq<Seq<char>>, line: int) -> Option<Seq<char>> {
    if line < 2 {
        None
    } else {
        let idx = line - 2;
        let k = run_start(ls, idx);
        if k > idx {
            None
        } else {
            Some(joined_lines(ls.subrange(k, idx + 1).map_values(|l: Seq<char>| trim(l))))
        }
    }
}

proof fn lemma_run_start_bounds(ls: Seq<Seq<char>>, idx: int)
    requires
        idx < ls.len(),
    ensures
        0 <= run_start(ls, idx) <= idx + 1 || idx < -1,
        idx >= -1 ==> 0 <= run_start(ls, idx) <= idx + 1,
    decreases idx + 1,
{
    if 0 <= idx < ls.len() && is_comment_line(ls[idx]) {
        lemma_run_start_bounds(ls, idx - 1);
    }
}

/// Collects the comment lines directly above (1-based) line `line`.
pub fn collect_preceding_comments(lines: &Vec<String>, line: usize) -> (r: Option<String>)
    requires
        line < 2 || line - 2 < lines@.len(),
    ensures
        opt_view(r) == preceding_comments(lines@.map_values(|l: String| l@), line as int),
{
    let ghost ls = lines@.map_values(|l: String| l@);
    if line < 2 {
        return None;
    }
    let idx = line - 2;
    let mut k: usize = idx + 1;
    while k > 0 && starts_with(&trim_chars(&chars_of(lines[k - 1].as_str())), &chars_of("#"))
        invariant
            0 <= k <= idx + 1,
            idx < lines@.len(),
            ls == lines@.map_values(|l: String| l@),
            run_start(ls, idx as int) == run_start(ls, k - 1),
        decreases k,
    {
        assert(ls[k - 1] == lines@[k - 1]@);
        k = k - 1;
    }
    proof {
        if k > 0 {
            assert(ls[k - 1] == lines@[k - 1]@);
        }
    }
    assert(run_start(ls, idx as int) == k);
    if k > idx {
        return None;
    }
    let ghost sub = ls.subrange(k as int, idx + 1).map_values(|l: Seq<char>| trim(l));
    let mut out = trim_chars(&chars_of(lines[k].as_str()));
    let mut j: usize = k + 1;
    assert(sub.take(1) =~= seq![trim(ls[k as int])]);
    assert(joined_lines(sub.take(1)) == trim(ls[k as int]));
    while j <= idx
        invariant
            k < j <= idx + 1,
            idx + 2 == line,
            idx < lines@.len(),
            ls == lines@.map_values(|l: String| l@),
            sub == ls.subrange(k as int, idx + 1).map_values(|l: Seq<char>| trim(l)),
            out@ == joined_lines(sub.take(j - k)),
        decreases idx + 1 - j,
    {
        let t = trim_chars(&chars_of(lines[j].as_str()));
        assert(sub.take(j - k + 1).drop_last() =~= sub.take(j - k));
        assert(sub.take(j - k + 1).last() == trim(ls[j as int]));
        let s = string_of(&out);
        let a = concat(s.as_str(), "\n");
        let b = string_of(&t);
        let c = concat(a.as_str(), b.as_str());
        out = chars_of(c.as_str());
        j = j + 1;
    }
    assert(sub.take(idx + 1 - k) =~= sub);
    Some(string_of(&out))
}

// ---------------------------------------------------------------------------
// Tasks
// ---------------------------------------------------------------------------

/// A task as plain values: path, start, end, line, column, action, tag,
/// comment, preceding comments, key and provider.
pub type TaskView = (
    Seq<char>,
    usize,
    usize,
    usize,
    usize,
    Seq<char>,
    Option<Seq<char>>,
    Option<Seq<char>>,
    Option<Seq<char>>,
    Seq<char>,
    CiProvider,
);

pub open spec fn task_view(t: UpdateTask) -> TaskView {
    (
        t.path@,
        t.start,
        t.end,
        t.line,
        t.column,
        t.action.0@,
        opt_view(t.current_tag),
        opt_view(t.comment),
        opt_view(t.preceding_comments),
        t.key@,
        t.provider,
    )
}

/// Whether `text` matches the glob `pattern`, as the `globset` crate decides
/// (`Glob::new`, `GlobMatcher::is_match`); false when the pattern is not a
/// valid glob.
pub uninterp spec fn glob_match(pattern: Seq<char>, text: Seq<char>) -> bool;

/// Matches `text` against the glob `pattern` with the `globset` crate.
/// Trusted: the result is named by `glob_match`.
#[verifier::external_body]
fn glob_is_match(pattern: &str, text: &str) -> (r: bool)
    ensures
        r == glob_match(pattern@, text@),
{
    globset::Glob::new(pattern).map(|g| g.compile_matcher().is_match(text)).unwrap_or(false)
}

/// A pattern with glob wildcards.
pub open spec fn has_wildcard(p: Seq<char>) -> bool {
    exists|i: int|
        0 <= i < p.len() && (p[i] == '*' || p[i] == '?' || p[i] == '[' || p[i] == ']' || p[i] == '{'
            || p[i] == '}')
}

/// An ignore pattern applies to an action: by glob when it has wildcards,
/// else as a substring.
pub open spec fn pattern_hits(p: Seq<char>, action: Seq<char>) -> bool {
    if has_wildcard(p) {
        glob_match(p, action)
    } else {
        contains(action, p)
    }
}

/// Some ignore pattern applies to the action.
pub open spec fn ignored(ignore: Seq<Seq<char>>, action: Seq<char>) -> bool {
    exists|i: int| 0 <= i < ignore.len() && pattern_hits(#[trigger] ignore[i], action)
}

/// The `docker://` scheme.
pub open spec fn docker_scheme() -> Seq<char> {
    "docker://"@
}

/// A reference split into name and tag: at the first `@`; otherwise at the
/// last `:` (after any `docker://` scheme) unless what follows it holds a `/`
/// (a registry port, as in `localhost:5000/image`); otherwise no tag.
pub open spec fn split_ref(v: Seq<char>) -> (Seq<char>, Option<Seq<char>>) {
    match first_index_of(v, '@') {
        Some(i) => (v.take(i), Some(v.skip(i + 1))),
        None => {
            let off: int = if has_prefix(v, docker_scheme()) {
                docker_scheme().len() as int
            } else {
                0
            };
            let p = v.skip(off);
            match last_index_of(p, ':') {
                Some(j) => if contains(p.skip(j + 1), "/"@) {
                    (v, None)
                } else {
                    (v.take(off + j), Some(v.skip(off + j + 1)))
                },
                None => (v, None),
            }
        },
    }
}

/// The task made of a captured value, if it is a dependency: `include` and
/// `project` entries, local paths (`./...`) and ignored actions are not.
pub open spec fn created(
    path: Seq<char>,
    provider: CiProvider,
    ignore: Seq<Seq<char>>,
    start: usize,
    end: usize,
    line: usize,
    column: usize,
    value: Seq<char>,
    comment: Option<Seq<char>>,
    key: Seq<char>,
) -> Option<TaskView> {
    if key == "include"@ || key == "project"@ || has_prefix(value, "./"@) {
        None
    } else {
        let (action, tag) = split_ref(value);
        if ignored(ignore, action) {
            None
        } else {
            Some((path, start, end, line, column, action, tag, comment, None, key, provider))
        }
    }
}

/// The ignore list is honoured: no task is made for an action that an
/// ignore pattern without wildcards occurs in (as a substring), or that a
/// pattern with wildcards matches as a glob; and every task that is made
/// names an action that no pattern applies to in either way.
pub proof fn lemma_ignored_actions_get_no_task(
    path: Seq<char>,
    provider: CiProvider,
    ignore: Seq<Seq<char>>,
    start: usize,
    end: usize,
    line: usize,
    column: usize,
    value: Seq<char>,
    comment: Option<Seq<char>>,
    key: Seq<char>,
)
    ensures
        forall|i: int|
            0 <= i < ignore.len() && !has_wildcard(#[trigger] ignore[i]) && contains(split_ref(value).0, ignore[i])
                ==> created(path, provider, ignore, start, end, line, column, value, comment, key) is None,
        forall|i: int|
            0 <= i < ignore.len() && has_wildcard(#[trigger] ignore[i]) && glob_match(ignore[i], split_ref(value).0)
                ==> created(path, provider, ignore, start, end, line, column, value, comment, key) is None,
        created(path, provider, ignore, start, end, line, column, value, comment, key) matches Some(t) ==> {
            &&& t.5 == split_ref(value).0
            &&& forall|i: int|
                0 <= i < ignore.len() ==> !(!has_wildcard(#[trigger] ignore[i]) && contains(t.5, ignore[i]))
                    && !(has_wildcard(ignore[i]) && glob_match(ignore[i], t.5))
        },
{
    assert forall|i: int|
        0 <= i < ignore.len() && !has_wildcard(#[trigger] ignore[i]) && contains(split_ref(value).0, ignore[i]) implies created(
        path,
        provider,
        ignore,
        start,
        end,
        line,
        column,
        value,
        comment,
        key,
    ) is None by {
        assert(pattern_hits(ignore[i], split_ref(value).0));
    }
    assert forall|i: int|
        0 <= i < ignore.len() && has_wildcard(#[trigger] ignore[i]) && glob_match(ignore[i], split_ref(value).0) implies created(
        path,
        provider,
        ignore,
        start,
        end,
        line,
        column,
        value,
        comment,
        key,
    ) is None by {
        assert(pattern_hits(ignore[i], split_ref(value).0));
    }
    if let Some(t) = created(path, provider, ignore, start, end, line, column, value, comment, key) {
        assert forall|i: int| 0 <= i < ignore.len() implies !(!has_wildcard(#[trigger] ignore[i]) && contains(t.5, ignore[i]))
            && !(has_wildcard(ignore[i]) && glob_match(ignore[i], t.5)) by {
            if (!has_wildcard(ignore[i]) && contains(t.5, ignore[i])) || (has_wildcard(ignore[i]) && glob_match(ignore[i], t.5)) {
                assert(pattern_hits(ignore[i], t.5));
            }
        }
    }
}

fn has_wildcard_exec(p: &Vec<char>) -> (r: bool)
    ensures
        r == has_wildcard(p@),
{
    let mut i: usize = 0;
    while i < p.len()
        invariant
            0 <= i <= p.len(),
            forall|j: int|
                0 <= j < i ==> !(p@[j] == '*' || p@[j] == '?' || p@[j] == '[' || p@[j] == ']'
                    || p@[j] == '{' || p@[j] == '}'),
        decreases p.len() - i,
    {
        let c = p[i];
        if c == '*' || c == '?' || c == '[' || c == ']' || c == '{' || c == '}' {
            return true;
        }
        i = i + 1;
    }
    false
}

fn is_ignored(ignore_list: &Vec<String>, action: &str) -> (r: bool)
    ensures
        r == ignored(ignore_list@.map_values(|s: String| s@), action@),
{
    let ghost iv = ignore_list@.map_values(|s: String| s@);
    let a = chars_of(action);
    let mut i: usize = 0;
    while i < ignore_list.len()
        invariant
            0 <= i <= ignore_list.len(),
            iv == ignore_list@.map_values(|s: String| s@),
            a@ == action@,
            forall|j: int| 0 <= j < i ==> !pattern_hits(#[trigger] iv[j], action@),
        decreases ignore_list.len() - i,
    {
        let p = ignore_list[i].as_str();
        let pv = chars_of(p);
        assert(iv[i as int] == p@);
        let hit = if has_wildcard_exec(&pv) {
            glob_is_match(p, action)
        } else {
            contains_exec(&a, &pv)
        };
        if hit {
            return true;
        }
        i = i + 1;
    }
    false
}

fn split_ref_exec(value: &str) -> (r: (String, Option<String>))
    ensures
        r.0@ == split_ref(value@).0,
        opt_view(r.1) == split_ref(value@).1,
{
    let v = chars_of(value);
    match find_char(&v, '@') {
        Some(i) => {
            assert(v@.take(i as int) =~= v@.subrange(0, i as int));
            assert(v@.skip(i + 1) =~= v@.subrange(i + 1, v@.len() as int));
            (string_of(&slice_chars(&v, 0, i)), Some(string_of(&slice_chars(&v, i + 1, v.len()))))
        },
        None => {
            proof {
                reveal_strlit("docker://");
            }
            let off: usize = if starts_with(&v, &chars_of("docker://")) {
                9
            } else {
                0
            };
            let p = slice_chars(&v, off, v.len());
            assert(p@ =~= v@.skip(off as int));
            match rfind_char(&p, ':') {
                Some(j) => {
                    let after = slice_chars(&p, j + 1, p.len());
                    assert(after@ =~= p@.skip(j + 1));
                    if contains_exec(&after, &chars_of("/")) {
                        (owned(value), None)
                    } else {
                        assert(v@.take(off + j) =~= v@.subrange(0, off + j));
                        assert(v@.skip(off + j + 1) =~= v@.subrange(off + j + 1, v@.len() as int));
                        (
                            string_of(&slice_chars(&v, 0, off + j)),
                            Some(string_of(&slice_chars(&v, off + j + 1, v.len()))),
                        )
                    }
                },
                None => (owned(value), None),
            }
        },
    }
}

/// Builds the task for a captured value (see [`created`]).
pub(crate) fn create_task(
    path: &str,
    provider: CiProvider,
    ignore_list: &Vec<String>,
    start: usize,
    end: usize,
    line: usize,
    column: usize,
    value: String,
    comment: Option<String>,
    key: String,
) -> (r: Option<UpdateTask>)
    ensures
        match r {
            Some(t) => created(
                path@,
                provider,
                ignore_list@.map_values(|s: String| s@),
                start,
                end,
                line,
                column,
                value@,
                opt_view(comment),
                key@,
            ) == Some(task_view(t)),
            None => created(
                path@,
                provider,
                ignore_list@.map_values(|s: String| s@),
                start,
                end,
                line,
                column,
                value@,
                opt_view(comment),
                key@,
            ) is None,
        },
{
    if str_eq(key.as_str(), "include") || str_eq(key.as_str(), "project") || starts_with(
        &chars_of(value.as_str()),
        &chars_of("./"),
    ) {
        return None;
    }
    let (action, tag) = split_ref_exec(value.as_str());
    if is_ignored(ignore_list, action.as_str()) {
        return None;
    }
    Some(
        UpdateTask {
            path: owned(path),
            start,
            end,
            line,
            column,
            action: DependencyName(action),
            current_tag: tag,
            comment,
            preceding_comments: None,
            key,
            provider,
        },
    )
}

} // verus!
