//! A YAML scanner that reports dependency nodes: five providers recognised
//! by their paths, and each dependency node with its raw value and position.
use crate::domain::update::opt_view;
use crate::error::PinnerError;
use crate::scanner::parser::{unquote as unquote_scalar, unquoted};
use crate::scanner::syntax::{matches_view, query_captures, yaml_query_matches, Capture, CaptureView};
use crate::scanner::tasks::{pair_query, pair_query_text, project_for, project_for_exec};
use crate::text::{chars_of, concat, contains, contains_exec, owned, str_eq};
use vstd::prelude::*;

verus! {

/// The CI systems this scanner tells apart.
#[derive(Debug, Clone, Copy, PartialEq, Eq, Structural)]
pub enum CiProvider {
    GitHub,
    GitLab,
    Bitbucket,
    CircleCI,
    Unknown,
}

/// The provider of a path: GitHub (and Gitea) workflows, GitLab CI,
/// Bitbucket Pipelines, CircleCI, in this order of precedence.
pub open spec fn node_provider(path: Seq<char>) -> CiProvider {
    if contains(path, ".github/workflows"@) || contains(path, ".gitea/workflows"@) {
        CiProvider::GitHub
    } else if contains(path, ".gitlab-ci"@) {
        CiProvider::GitLab
    } else if contains(path, "bitbucket-pipelines"@) {
        CiProvider::Bitbucket
    } else if contains(path, ".circleci"@) {
        CiProvider::CircleCI
    } else {
        CiProvider::Unknown
    }
}

/// The keys that hold dependencies for each provider.
pub open spec fn node_key_supported(p: CiProvider, key: Seq<char>) -> bool {
    match p {
        CiProvider::GitHub => key == "uses"@ || key == "image"@,
        CiProvider::GitLab => key == "include"@ || key == "image"@ || key == "ref"@,
        CiProvider::Bitbucket => key == "pipe"@ || key == "image"@,
        CiProvider::CircleCI => key == "orbs"@ || key == "image"@,
        CiProvider::Unknown => true,
    }
}

impl CiProvider {
    /// Detects the provider from the file path (case-sensitive).
    pub fn from_path(path: &str) -> (r: CiProvider)
        ensures
            r == node_provider(path@),
    {
        let p = chars_of(path);
        if contains_exec(&p, &chars_of(".github/workflows")) || contains_exec(
            &p,
            &chars_of(".gitea/workflows"),
        ) {
            CiProvider::GitHub
        } else if contains_exec(&p, &chars_of(".gitlab-ci")) {
            CiProvider::GitLab
        } else if contains_exec(&p, &chars_of("bitbucket-pipelines")) {
            CiProvider::Bitbucket
        } else if contains_exec(&p, &chars_of(".circleci")) {
            CiProvider::CircleCI
        } else {
            CiProvider::Unknown
        }
    }

    /// Returns true if the key holds a dependency for this provider; every key
    /// counts for an unknown provider.
    pub fn supports_key(&self, key: &str) -> (r: bool)
        ensures
            r == node_key_supported(*self, key@),
    {
        match self {
            CiProvider::GitHub => str_eq(key, "uses") || str_eq(key, "image"),
            CiProvider::GitLab => str_eq(key, "include") || str_eq(key, "image") || str_eq(
                key,
                "ref",
            ),
            CiProvider::Bitbucket => str_eq(key, "pipe") || str_eq(key, "image"),
            CiProvider::CircleCI => str_eq(key, "orbs") || str_eq(key, "image"),
            CiProvider::Unknown => true,
        }
    }
}

/// A dependency reference found in a YAML file.
#[derive(Debug, PartialEq, Eq, Clone)]
pub struct DependencyNode {
    /// Starting byte offset in the content.
    pub start: usize,
    /// Ending byte offset in the content.
    pub end: usize,
    /// The unquoted value of the dependency (e.g., "actions/checkout@v3").
    pub value: String,
    /// Optional adjacent comment (e.g., "# v3").
    pub comment: Option<String>,
    /// The YAML key where the dependency was found (e.g., "uses").
    pub key: String,
}

/// A dependency node as values: start, end, value, comment and key.
pub type NodeView = (usize, usize, Seq<char>, Option<Seq<char>>, Seq<char>);

pub open spec fn node_view(n: DependencyNode) -> NodeView {
    (n.start, n.end, n.value@, opt_view(n.comment), n.key@)
}

pub open spec fn nodes_view(ns: Seq<DependencyNode>) -> Seq<NodeView> {
    ns.map_values(|n: DependencyNode| node_view(n))
}

/// The query for the values of the dependency keys, and for comments.
pub open spec fn uses_query() -> Seq<char> {
    "
        (block_mapping_pair
          key: [
            (flow_node (plain_scalar (string_scalar) @key))
            (plain_scalar (string_scalar) @key)
          ]
          value: (_) @value
          (#match? @key \"^(uses|pipe|image|include|ref|orbs)$\"))
        (comment) @comment
        "@
}

fn uses_query_text() -> (r: &'static str)
    ensures
        r@ == uses_query(),
{
    "
        (block_mapping_pair
          key: [
            (flow_node (plain_scalar (string_scalar) @key))
            (plain_scalar (string_scalar) @key)
          ]
          value: (_) @value
          (#match? @key \"^(uses|pipe|image|include|ref|orbs)$\"))
        (comment) @comment
        "
}

/// A value waiting for a comment on its row: start, end, value, row, key.
pub type Waiting = (usize, usize, Seq<char>, usize, Seq<char>);

/// The node of a waiting value with the given comment.
pub open spec fn closed_node(p: Waiting, comment: Option<Seq<char>>) -> NodeView {
    (p.0, p.1, p.2, comment, p.4)
}

/// The node of a waiting value closed without a comment, if any.
pub open spec fn close_waiting(last: Option<Waiting>) -> Seq<NodeView> {
    match last {
        Some(p) => seq![closed_node(p, None)],
        None => Seq::empty(),
    }
}

/// The walk's state: nodes so far, the waiting value and the current key.
pub type NodeScan = (Seq<NodeView>, Option<Waiting>, Seq<char>);

/// One capture: a key becomes the current key; a value of a supported key
/// closes the waiting value and waits in turn (a `ref` becomes
/// `project@ref` where its mapping names a project); a comment closes the
/// waiting value, as its comment when both start on the same row.
pub open spec fn node_step(provider: CiProvider, pairs: Seq<Seq<CaptureView>>, st: NodeScan, c: CaptureView) -> NodeScan {
    if c.0 == "key"@ {
        (st.0, st.1, c.1)
    } else if c.0 == "value"@ {
        if !node_key_supported(provider, st.2) {
            st
        } else {
            let u = unquoted(c.1);
            let val = if st.2 == "ref"@ {
                match project_for(pairs, c.2, c.3) {
                    Some(p) => p + "@"@ + u,
                    None => u,
                }
            } else {
                u
            };
            (st.0 + close_waiting(st.1), Some((c.2, c.3, val, c.4, st.2)), st.2)
        }
    } else if c.0 == "comment"@ {
        match st.1 {
            Some(p) => (st.0.push(closed_node(p, if c.4 == p.3 {
                Some(c.1)
            } else {
                None
            })), None, st.2),
            None => st,
        }
    } else {
        st
    }
}

/// The walk over the captures of one match.
pub open spec fn node_captures(provider: CiProvider, pairs: Seq<Seq<CaptureView>>, st: NodeScan, caps: Seq<CaptureView>) -> NodeScan
    decreases caps.len(),
{
    if caps.len() == 0 {
        st
    } else {
        node_step(provider, pairs, node_captures(provider, pairs, st, caps.drop_last()), caps.last())
    }
}

/// The walk over the matches; each match starts with no current key.
pub open spec fn node_matches(provider: CiProvider, pairs: Seq<Seq<CaptureView>>, ms: Seq<Seq<CaptureView>>) -> (Seq<NodeView>, Option<Waiting>)
    decreases ms.len(),
{
    if ms.len() == 0 {
        (Seq::empty(), None)
    } else {
        let prev = node_matches(provider, pairs, ms.drop_last());
        let st = node_captures(provider, pairs, (prev.0, prev.1, Seq::empty()), ms.last());
        (st.0, st.1)
    }
}

/// The dependency nodes of a file: the walk's nodes and the last waiting
/// value.
pub open spec fn uses_nodes(provider: CiProvider, pairs: Seq<Seq<CaptureView>>, ms: Seq<Seq<CaptureView>>) -> Seq<NodeView> {
    let s = node_matches(provider, pairs, ms);
    s.0 + close_waiting(s.1)
}

pub open spec fn waiting_view(p: Option<(usize, usize, String, usize, String)>) -> Option<Waiting> {
    match p {
        Some(x) => Some((x.0, x.1, x.2@, x.3, x.4@)),
        None => None,
    }
}

fn push_node(nodes: &mut Vec<DependencyNode>, p: (usize, usize, String, usize, String), comment: Option<String>)
    ensures
        nodes_view(final(nodes)@) == nodes_view(old(nodes)@).push(
            closed_node((p.0, p.1, p.2@, p.3, p.4@), opt_view(comment)),
        ),
{
    let ghost before = nodes_view(nodes@);
    let n = DependencyNode { start: p.0, end: p.1, value: p.2, comment, key: p.4 };
    nodes.push(n);
    assert(nodes_view(nodes@) =~= before.push(node_view(n)));
}

/// The dependency nodes of a file, from the matches of the dependency query
/// and of the pair query on it (see [`uses_nodes`]).
pub fn nodes_from_captures(provider: CiProvider, matches: &Vec<Vec<Capture>>, pairs: &Vec<Vec<Capture>>) -> (r: Vec<DependencyNode>)
    ensures
        nodes_view(r@) == uses_nodes(provider, matches_view(pairs@), matches_view(matches@)),
{
    let ghost ps = matches_view(pairs@);
    let ghost ms = matches_view(matches@);
    let mut nodes: Vec<DependencyNode> = Vec::new();
    let mut last: Option<(usize, usize, String, usize, String)> = None;
    let mut mi: usize = 0;
    while mi < matches.len()
        invariant
            0 <= mi <= matches.len(),
            ms == matches_view(matches@),
            ps == matches_view(pairs@),
            (nodes_view(nodes@), waiting_view(last)) == node_matches(provider, ps, ms.take(mi as int)),
        decreases matches.len() - mi,
    {
        let m = &matches[mi];
        let ghost caps = ms[mi as int];
        assert(caps == m@.map_values(|c: Capture| c@));
        assert(ms.take(mi + 1).drop_last() =~= ms.take(mi as int));
        assert(ms.take(mi + 1).last() == caps);
        let mut key = String::new();
        let ghost st0: NodeScan = (nodes_view(nodes@), waiting_view(last), Seq::empty());
        let mut ci: usize = 0;
        assert(caps.take(0) =~= Seq::<CaptureView>::empty());
        while ci < m.len()
            invariant
                0 <= ci <= m.len(),
                caps == m@.map_values(|c: Capture| c@),
                ps == matches_view(pairs@),
                (nodes_view(nodes@), waiting_view(last), key@) == node_captures(provider, ps, st0, caps.take(ci as int)),
            decreases m.len() - ci,
        {
            let c = &m[ci];
            assert(caps.take(ci + 1).drop_last() =~= caps.take(ci as int));
            assert(caps.take(ci + 1).last() == c@);
            if str_eq(c.name.as_str(), "key") {
                key = c.text.clone();
            } else if str_eq(c.name.as_str(), "value") {
                if provider.supports_key(key.as_str()) {
                    match last.take() {
                        Some(p) => push_node(&mut nodes, p, None),
                        None => {},
                    }
                    let u = unquote_scalar(c.text.as_str());
                    let val = if str_eq(key.as_str(), "ref") {
                        match project_for_exec(pairs, c.start, c.end) {
                            Some(p) => {
                                let a = concat(p.as_str(), "@");
                                concat(a.as_str(), u.as_str())
                            },
                            None => u,
                        }
                    } else {
                        u
                    };
                    last = Some((c.start, c.end, val, c.row, key.clone()));
                }
            } else if str_eq(c.name.as_str(), "comment") {
                match last.take() {
                    Some(p) => {
                        let comment = if c.row == p.3 {
                            Some(c.text.clone())
                        } else {
                            None
                        };
                        push_node(&mut nodes, p, comment);
                    },
                    None => {},
                }
            }
            ci = ci + 1;
        }
        assert(caps.take(m.len() as int) =~= caps);
        mi = mi + 1;
    }
    assert(ms.take(matches.len() as int) =~= ms);
    match last {
        Some(p) => push_node(&mut nodes, p, None),
        None => {},
    }
    nodes
}

/// Finds all `uses`, `pipe`, `image`, `include`, `ref` and `orbs` values of
/// a YAML text that the provider reads, with the comments on their rows (see
/// [`uses_nodes`]); a parse error when a query cannot be run.
pub fn find_uses_nodes(content: &str, provider: CiProvider) -> (r: Result<Vec<DependencyNode>, PinnerError>)
    ensures
        match (yaml_query_matches(uses_query(), content@), yaml_query_matches(pair_query(), content@)) {
            (Some(ms), Some(ps)) => r matches Ok(ns) && nodes_view(ns@) == uses_nodes(provider, ps, ms),
            _ => r is Err,
        },
{
    let matches = match query_captures(uses_query_text(), content) {
        Some(m) => m,
        None => return Err(PinnerError::Parse(owned("Failed to create tree-sitter query"))),
    };
    let pairs = match query_captures(pair_query_text(), content) {
        Some(p) => p,
        None => return Err(PinnerError::Parse(owned("Failed to create tree-sitter query"))),
    };
    Ok(nodes_from_captures(provider, &matches, &pairs))
}

/// Removes surrounding whitespace and quotes from a YAML scalar.
pub fn unquote(s: &str) -> (r: String)
    ensures
        r@ == unquoted(s@),
{
    unquote_scalar(s)
}

} // verus!
