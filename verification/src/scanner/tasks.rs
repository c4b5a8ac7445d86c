//! Walking the captures of a workflow file in order, pairing each dependency
//! value with the comment that follows it on the same line.
use crate::domain::dependency::CiProvider;
use crate::domain::update::{opt_view, UpdateTask};
use crate::error::PinnerError;
use crate::scanner::parser::{
    collect_preceding_comments, create_task, created, glob_match, has_wildcard, key_supported,
    lemma_ignored_actions_get_no_task, preceding_comments, provider_for, task_view, unquote, unquoted, TaskView,
};
use crate::scanner::syntax::{lines_of, matches_view, query_captures, text_lines, yaml_query_matches, Capture, CaptureView};
use crate::text::{concat, contains, owned, str_eq};
use vstd::prelude::*;

verus! {

/// The query for dependency values: pairs whose key is a known dependency key
/// (with the value captured), the names and values of CircleCI orbs, and
/// comments.
pub open spec fn dependency_query() -> Seq<char> {
    "
        (block_mapping_pair
          key: [
            (flow_node (plain_scalar (string_scalar) @key))
            (plain_scalar (string_scalar) @key)
          ]
          value: (_) @value
          (#match? @key \"^(uses|pipe|image|include|ref|task|template|bundle)$\"))

        (block_mapping_pair
          key: [
            (flow_node (plain_scalar (string_scalar) @key))
            (plain_scalar (string_scalar) @key)
          ]
          (#eq? @key \"orbs\")
          value: (block_node
            (block_mapping
              (block_mapping_pair
                value: [
                  (flow_node (plain_scalar (string_scalar) @value))
                  (plain_scalar (string_scalar) @value)
                ]
              )
            )
          )
        )

        (comment) @comment
        "@
}

fn dependency_query_text() -> (r: &'static str)
    ensures
        r@ == dependency_query(),
{
    "
        (block_mapping_pair
          key: [
            (flow_node (plain_scalar (string_scalar) @key))
            (plain_scalar (string_scalar) @key)
          ]
          value: (_) @value
          (#match? @key \"^(uses|pipe|image|include|ref|task|template|bundle)$\"))

        (block_mapping_pair
          key: [
            (flow_node (plain_scalar (string_scalar) @key))
            (plain_scalar (string_scalar) @key)
          ]
          (#eq? @key \"orbs\")
          value: (block_node
            (block_mapping
              (block_mapping_pair
                value: [
                  (flow_node (plain_scalar (string_scalar) @value))
                  (plain_scalar (string_scalar) @value)
                ]
              )
            )
          )
        )

        (comment) @comment
        "
}

/// The query for the pairs of every block mapping, with the mapping they
/// belong to.
pub open spec fn pair_query() -> Seq<char> {
    "(block_mapping (block_mapping_pair key: (_) @pkey value: (_) @pvalue)) @mapping"@
}

pub(crate) fn pair_query_text() -> (r: &'static str)
    ensures
        r@ == pair_query(),
{
    "(block_mapping (block_mapping_pair key: (_) @pkey value: (_) @pvalue)) @mapping"
}

// ---------------------------------------------------------------------------
// GitLab projects
// ---------------------------------------------------------------------------

/// The first capture of a match with the given name.
pub open spec fn cap_named(m: Seq<CaptureView>, name: Seq<char>) -> Option<CaptureView>
    decreases m.len(),
{
    if m.len() == 0 {
        None
    } else if m[0].0 == name {
        Some(m[0])
    } else {
        cap_named(m.drop_first(), name)
    }
}

/// The byte range of the mapping whose pair has the value node at
/// `start..end`.
pub open spec fn owner_mapping(pairs: Seq<Seq<CaptureView>>, start: usize, end: usize) -> Option<(usize, usize)>
    decreases pairs.len(),
{
    if pairs.len() == 0 {
        None
    } else {
        let m = pairs[0];
        match (cap_named(m, "pvalue"@), cap_named(m, "mapping"@)) {
            (Some(v), Some(mp)) => if v.2 == start && v.3 == end {
                Some((mp.2, mp.3))
            } else {
                owner_mapping(pairs.drop_first(), start, end)
            },
            _ => owner_mapping(pairs.drop_first(), start, end),
        }
    }
}

/// The unquoted value of the first `project` pair of the mapping at `range`.
pub open spec fn project_in(pairs: Seq<Seq<CaptureView>>, range: (usize, usize)) -> Option<Seq<char>>
    decreases pairs.len(),
{
    if pairs.len() == 0 {
        None
    } else {
        let m = pairs[0];
        match (cap_named(m, "mapping"@), cap_named(m, "pkey"@), cap_named(m, "pvalue"@)) {
            (Some(mp), Some(k), Some(v)) => if mp.2 == range.0 && mp.3 == range.1 && k.1
                == "project"@ {
                Some(unquoted(v.1))
            } else {
                project_in(pairs.drop_first(), range)
            },
            _ => project_in(pairs.drop_first(), range),
        }
    }
}

/// The GitLab project named beside a `ref` whose value node is at
/// `start..end` (`include: - project: ..., ref: ...`).
pub open spec fn project_for(pairs: Seq<Seq<CaptureView>>, start: usize, end: usize) -> Option<Seq<char>> {
    match owner_mapping(pairs, start, end) {
        Some(r) => project_in(pairs, r),
        None => None,
    }
}

fn cap_named_exec<'a>(m: &'a Vec<Capture>, name: &str) -> (r: Option<&'a Capture>)
    ensures
        match r {
            Some(c) => cap_named(m@.map_values(|c: Capture| c@), name@) == Some(c@),
            None => cap_named(m@.map_values(|c: Capture| c@), name@) is None,
        },
{
    let ghost mv = m@.map_values(|c: Capture| c@);
    let mut i: usize = 0;
    assert(mv.skip(0) =~= mv);
    while i < m.len()
        invariant
            0 <= i <= m.len(),
            mv == m@.map_values(|c: Capture| c@),
            cap_named(mv, name@) == cap_named(mv.skip(i as int), name@),
        decreases m.len() - i,
    {
        assert(mv.skip(i as int)[0] == m@[i as int]@);
        assert(mv.skip(i as int).drop_first() =~= mv.skip(i + 1));
        if str_eq(m[i].name.as_str(), name) {
            return Some(&m[i]);
        }
        i = i + 1;
    }
    None
}

fn owner_mapping_exec(pairs: &Vec<Vec<Capture>>, start: usize, end: usize) -> (r: Option<(usize, usize)>)
    ensures
        r == owner_mapping(matches_view(pairs@), start, end),
{
    let ghost pv = matches_view(pairs@);
    let mut i: usize = 0;
    assert(pv.skip(0) =~= pv);
    while i < pairs.len()
        invariant
            0 <= i <= pairs.len(),
            pv == matches_view(pairs@),
            owner_mapping(pv, start, end) == owner_mapping(pv.skip(i as int), start, end),
        decreases pairs.len() - i,
    {
        assert(pv.skip(i as int)[0] == pairs@[i as int]@.map_values(|c: Capture| c@));
        assert(pv.skip(i as int).drop_first() =~= pv.skip(i + 1));
        let m = &pairs[i];
        match (cap_named_exec(m, "pvalue"), cap_named_exec(m, "mapping")) {
            (Some(v), Some(mp)) => {
                if v.start == start && v.end == end {
                    return Some((mp.start, mp.end));
                }
            },
            _ => {},
        }
        i = i + 1;
    }
    None
}

fn project_in_exec(pairs: &Vec<Vec<Capture>>, range: (usize, usize)) -> (r: Option<String>)
    ensures
        opt_view(r) == project_in(matches_view(pairs@), range),
{
    let ghost pv = matches_view(pairs@);
    let mut i: usize = 0;
    assert(pv.skip(0) =~= pv);
    while i < pairs.len()
        invariant
            0 <= i <= pairs.len(),
            pv == matches_view(pairs@),
            project_in(pv, range) == project_in(pv.skip(i as int), range),
        decreases pairs.len() - i,
    {
        assert(pv.skip(i as int)[0] == pairs@[i as int]@.map_values(|c: Capture| c@));
        assert(pv.skip(i as int).drop_first() =~= pv.skip(i + 1));
        let m = &pairs[i];
        match (cap_named_exec(m, "mapping"), cap_named_exec(m, "pkey"), cap_named_exec(m, "pvalue")) {
            (Some(mp), Some(k), Some(v)) => {
                if mp.start == range.0 && mp.end == range.1 && str_eq(k.text.as_str(), "project") {
                    return Some(unquote(v.text.as_str()));
                }
            },
            _ => {},
        }
        i = i + 1;
    }
    None
}

pub(crate) fn project_for_exec(pairs: &Vec<Vec<Capture>>, start: usize, end: usize) -> (r: Option<String>)
    ensures
        opt_view(r) == project_for(matches_view(pairs@), start, end),
{
    match owner_mapping_exec(pairs, start, end) {
        Some(range) => project_in_exec(pairs, range),
        None => None,
    }
}

// ---------------------------------------------------------------------------
// The walk
// ---------------------------------------------------------------------------

/// What the walk reads besides the captures: the file's path and provider,
/// the ignore list, the file's lines and the pairs of its mappings.
pub type ScanContext = (Seq<char>, CiProvider, Seq<Seq<char>>, Seq<Seq<char>>, Seq<Seq<CaptureView>>);

/// A value waiting for a comment on its line: start, end, value, row, column
/// and key.
pub type Pending = (usize, usize, Seq<char>, usize, usize, Seq<char>);

/// The task (if any) for a pending value with the given comment, with the
/// comment lines above it attached.
pub open spec fn emit(ctx: ScanContext, p: Pending, comment: Option<Seq<char>>) -> Seq<TaskView> {
    let line = (p.3 + 1) as usize;
    match created(ctx.0, ctx.1, ctx.2, p.0, p.1, line, (p.4 + 1) as usize, p.2, comment, p.5) {
        Some(t) => seq![(t.0, t.1, t.2, t.3, t.4, t.5, t.6, t.7, preceding_comments(ctx.3, line as int), t.9, t.10)],
        None => Seq::empty(),
    }
}

/// The task (if any) of a pending value without a comment.
pub open spec fn flush(ctx: ScanContext, last: Option<Pending>) -> Seq<TaskView> {
    match last {
        Some(p) => emit(ctx, p, None),
        None => Seq::empty(),
    }
}

/// The walk's state: tasks so far, the value waiting for a comment, and the
/// key of the current match.
pub type ScanState = (Seq<TaskView>, Option<Pending>, Seq<char>);

/// One capture of the walk: a key sets the current key; a value of a key the
/// provider supports closes the waiting value (without comment) and waits in
/// turn (a GitLab `ref` becomes `project@ref`); a comment closes the waiting
/// value, as its comment when it is on the same row.
pub open spec fn scan_step(ctx: ScanContext, st: ScanState, c: CaptureView) -> ScanState {
    if c.0 == "key"@ {
        (st.0, st.1, c.1)
    } else if c.0 == "value"@ {
        if !key_supported(ctx.1, st.2) {
            st
        } else {
            let u = unquoted(c.1);
            let val = if st.2 == "ref"@ {
                match project_for(ctx.4, c.2, c.3) {
                    Some(p) => p + "@"@ + u,
                    None => u,
                }
            } else {
                u
            };
            (st.0 + flush(ctx, st.1), Some((c.2, c.3, val, c.4, c.5, st.2)), st.2)
        }
    } else if c.0 == "comment"@ {
        match st.1 {
            Some(p) => (st.0 + emit(ctx, p, if c.4 == p.3 {
                Some(c.1)
            } else {
                None
            }), None, st.2),
            None => st,
        }
    } else {
        st
    }
}

/// The walk over the captures of one match.
pub open spec fn scan_captures(ctx: ScanContext, st: ScanState, caps: Seq<CaptureView>) -> ScanState
    decreases caps.len(),
{
    if caps.len() == 0 {
        st
    } else {
        scan_step(ctx, scan_captures(ctx, st, caps.drop_last()), caps.last())
    }
}

/// The walk over the matches; each match starts with no current key.
pub open spec fn scan_matches(ctx: ScanContext, ms: Seq<Seq<CaptureView>>) -> (Seq<TaskView>, Option<Pending>)
    decreases ms.len(),
{
    if ms.len() == 0 {
        (Seq::empty(), None)
    } else {
        let prev = scan_matches(ctx, ms.drop_last());
        let st = scan_captures(ctx, (prev.0, prev.1, Seq::empty()), ms.last());
        (st.0, st.1)
    }
}

/// The tasks of a file: the walk's tasks and the last waiting value.
pub open spec fn scanned_tasks(ctx: ScanContext, ms: Seq<Seq<CaptureView>>) -> Seq<TaskView> {
    let s = scan_matches(ctx, ms);
    s.0 + flush(ctx, s.1)
}

/// Every capture lies on a line of the file (rows are 0-based), and its
/// position can be numbered from 1.
pub open spec fn captures_fit(ms: Seq<Seq<CaptureView>>, line_count: int) -> bool {
    forall|i: int, j: int|
        0 <= i < ms.len() && 0 <= j < ms[i].len() ==> {
            let c = #[trigger] ms[i][j];
            c.4 <= line_count && c.4 < usize::MAX && c.5 < usize::MAX
        }
}

/// A pending value held as values.
pub open spec fn pending_view(p: Option<(usize, usize, String, usize, usize, String)>) -> Option<Pending> {
    match p {
        Some(x) => Some((x.0, x.1, x.2@, x.3, x.4, x.5@)),
        None => None,
    }
}

pub open spec fn tasks_view(ts: Seq<UpdateTask>) -> Seq<TaskView> {
    ts.map_values(|t: UpdateTask| task_view(t))
}

fn emit_exec(
    path: &str,
    provider: CiProvider,
    ignore_list: &Vec<String>,
    lines: &Vec<String>,
    pairs: &Vec<Vec<Capture>>,
    tasks: &mut Vec<UpdateTask>,
    p: (usize, usize, String, usize, usize, String),
    comment: Option<String>,
)
    requires
        p.3 <= lines@.len(),
        p.3 < usize::MAX,
        p.4 < usize::MAX,
    ensures
        tasks_view(final(tasks)@) == tasks_view(old(tasks)@) + emit(
            (path@, provider, ignore_list@.map_values(|s: String| s@), lines@.map_values(|l: String| l@), matches_view(pairs@)),
            (p.0, p.1, p.2@, p.3, p.4, p.5@),
            opt_view(comment),
        ),
{
    let line = p.3 + 1;
    let preceding = collect_preceding_comments(lines, line);
    match create_task(path, provider, ignore_list, p.0, p.1, line, p.4 + 1, p.2, comment, p.5) {
        Some(t) => {
            let mut t = t;
            t.preceding_comments = preceding;
            let ghost before = tasks_view(tasks@);
            tasks.push(t);
            assert(tasks_view(tasks@) =~= before.push(task_view(t)));
        },
        None => {},
    }
}

/// The update tasks of a file, from the matches of the dependency query and
/// of the pair query on it (see [`scanned_tasks`]).
pub fn tasks_from_captures(
    path: &str,
    provider: CiProvider,
    ignore_list: &Vec<String>,
    lines: &Vec<String>,
    matches: &Vec<Vec<Capture>>,
    pairs: &Vec<Vec<Capture>>,
) -> (r: Vec<UpdateTask>)
    requires
        captures_fit(matches_view(matches@), lines@.len() as int),
    ensures
        tasks_view(r@) == scanned_tasks(
            (path@, provider, ignore_list@.map_values(|s: String| s@), lines@.map_values(|l: String| l@), matches_view(pairs@)),
            matches_view(matches@),
        ),
{
    let ghost ctx: ScanContext = (path@, provider, ignore_list@.map_values(|s: String| s@), lines@.map_values(|l: String| l@), matches_view(pairs@));
    let ghost ms = matches_view(matches@);
    let mut tasks: Vec<UpdateTask> = Vec::new();
    let mut last: Option<(usize, usize, String, usize, usize, String)> = None;
    let mut mi: usize = 0;
    while mi < matches.len()
        invariant
            0 <= mi <= matches.len(),
            ms == matches_view(matches@),
            ctx == (path@, provider, ignore_list@.map_values(|s: String| s@), lines@.map_values(|l: String| l@), matches_view(pairs@)),
            captures_fit(ms, lines@.len() as int),
            (tasks_view(tasks@), pending_view(last)) == scan_matches(ctx, ms.take(mi as int)),
            last matches Some(p) ==> p.3 <= lines@.len() && p.3 < usize::MAX && p.4 < usize::MAX,
        decreases matches.len() - mi,
    {
        let m = &matches[mi];
        let ghost caps = ms[mi as int];
        assert(caps == m@.map_values(|c: Capture| c@));
        assert(ms.take(mi + 1).drop_last() =~= ms.take(mi as int));
        assert(ms.take(mi + 1).last() == caps);
        let mut key = String::new();
        let ghost st0: ScanState = (tasks_view(tasks@), pending_view(last), Seq::empty());
        let mut ci: usize = 0;
        assert(caps.take(0) =~= Seq::<CaptureView>::empty());
        while ci < m.len()
            invariant
                0 <= ci <= m.len(),
                caps == m@.map_values(|c: Capture| c@),
                caps == ms[mi as int],
                0 <= mi < ms.len(),
                ms == matches_view(matches@),
                ctx == (path@, provider, ignore_list@.map_values(|s: String| s@), lines@.map_values(|l: String| l@), matches_view(pairs@)),
                captures_fit(ms, lines@.len() as int),
                (tasks_view(tasks@), pending_view(last), key@) == scan_captures(ctx, st0, caps.take(ci as int)),
                last matches Some(p) ==> p.3 <= lines@.len() && p.3 < usize::MAX && p.4 < usize::MAX,
            decreases m.len() - ci,
        {
            let c = &m[ci];
            assert(caps.take(ci + 1).drop_last() =~= caps.take(ci as int));
            assert(caps.take(ci + 1).last() == c@);
            assert(caps[ci as int] == c@);
            assert(c.row <= lines@.len() && c.row < usize::MAX && c.column < usize::MAX);
            if str_eq(c.name.as_str(), "key") {
                key = c.text.clone();
            } else if str_eq(c.name.as_str(), "value") {
                if provider.supports_key(key.as_str()) {
                    match last.take() {
                        Some(p) => emit_exec(path, provider, ignore_list, lines, pairs, &mut tasks, p, None),
                        None => {},
                    }
                    let u = unquote(c.text.as_str());
                    let val = if str_eq(key.as_str(), "ref") {
                        match project_for_exec(pairs, c.start, c.end) {
                            Some(p) => {
                                let a = concat(p.as_str(), "@");
                                concat(a.as_str(), u.as_str())
                            },
                            None => u,
                        }
                    } else {
                        u
                    };
                    last = Some((c.start, c.end, val, c.row, c.column, key.clone()));
                }
            } else if str_eq(c.name.as_str(), "comment") {
                match last.take() {
                    Some(p) => {
                        let comment = if c.row == p.3 {
                            Some(c.text.clone())
                        } else {
                            None
                        };
                        emit_exec(path, provider, ignore_list, lines, pairs, &mut tasks, p, comment);
                    },
                    None => {},
                }
            }
            ci = ci + 1;
        }
        assert(caps.take(m.len() as int) =~= caps);
        mi = mi + 1;
    }
    assert(ms.take(matches.len() as int) =~= ms);
    match last {
        Some(p) => emit_exec(path, provider, ignore_list, lines, pairs, &mut tasks, p, None),
        None => {},
    }
    tasks
}

fn captures_fit_exec(matches: &Vec<Vec<Capture>>, line_count: usize) -> (r: bool)
    ensures
        r == captures_fit(matches_view(matches@), line_count as int),
{
    let ghost ms = matches_view(matches@);
    let mut i: usize = 0;
    while i < matches.len()
        invariant
            0 <= i <= matches.len(),
            ms == matches_view(matches@),
            forall|a: int, b: int|
                0 <= a < i && 0 <= b < ms[a].len() ==> {
                    let c = #[trigger] ms[a][b];
                    c.4 <= line_count && c.4 < usize::MAX && c.5 < usize::MAX
                },
        decreases matches.len() - i,
    {
        let m = &matches[i];
        assert(ms[i as int] == m@.map_values(|c: Capture| c@));
        let mut j: usize = 0;
        while j < m.len()
            invariant
                0 <= j <= m.len(),
                0 <= i < matches.len(),
                ms == matches_view(matches@),
                ms[i as int] == m@.map_values(|c: Capture| c@),
                forall|a: int, b: int|
                    0 <= a < i && 0 <= b < ms[a].len() ==> {
                        let c = #[trigger] ms[a][b];
                        c.4 <= line_count && c.4 < usize::MAX && c.5 < usize::MAX
                    },
                forall|b: int|
                    0 <= b < j ==> {
                        let c = #[trigger] ms[i as int][b];
                        c.4 <= line_count && c.4 < usize::MAX && c.5 < usize::MAX
                    },
            decreases m.len() - j,
        {
            let c = &m[j];
            assert(ms[i as int][j as int] == c@);
            if c.row > line_count || c.row == usize::MAX || c.column == usize::MAX {
                return false;
            }
            j = j + 1;
        }
        i = i + 1;
    }
    true
}

/// The tasks of a file, or the message of the parse error that stops the
/// scan: a query that cannot be run, or a capture outside the file's lines.
pub open spec fn file_tasks(path: Seq<char>, content: Seq<char>, ignore_list: Seq<Seq<char>>) -> Result<Seq<TaskView>, Seq<char>> {
    match (yaml_query_matches(dependency_query(), content), yaml_query_matches(pair_query(), content)) {
        (Some(ms), Some(ps)) => if captures_fit(ms, text_lines(content).len() as int) {
            Ok(scanned_tasks((path, provider_for(path), ignore_list, text_lines(content), ps), ms))
        } else {
            Err("capture outside the file"@)
        },
        _ => Err("Failed to create tree-sitter query"@),
    }
}

/// No ignore pattern applies to a task's action: neither one without
/// wildcards occurring in it nor one with wildcards matching it as a glob.
pub open spec fn not_ignored(ignore: Seq<Seq<char>>, t: TaskView) -> bool {
    forall|i: int|
        0 <= i < ignore.len() ==> !(!has_wildcard(#[trigger] ignore[i]) && contains(t.5, ignore[i])) && !(has_wildcard(
            ignore[i],
        ) && glob_match(ignore[i], t.5))
}

/// Every task of a list has an action no ignore pattern applies to.
pub open spec fn none_ignored(ignore: Seq<Seq<char>>, ts: Seq<TaskView>) -> bool {
    forall|k: int| 0 <= k < ts.len() ==> not_ignored(ignore, #[trigger] ts[k])
}

proof fn lemma_emit_not_ignored(ctx: ScanContext, p: Pending, comment: Option<Seq<char>>)
    ensures
        none_ignored(ctx.2, emit(ctx, p, comment)),
{
    let line = (p.3 + 1) as usize;
    lemma_ignored_actions_get_no_task(ctx.0, ctx.1, ctx.2, p.0, p.1, line, (p.4 + 1) as usize, p.2, comment, p.5);
}

proof fn lemma_join_not_ignored(ignore: Seq<Seq<char>>, a: Seq<TaskView>, b: Seq<TaskView>)
    requires
        none_ignored(ignore, a),
        none_ignored(ignore, b),
    ensures
        none_ignored(ignore, a + b),
{
    assert forall|k: int| 0 <= k < (a + b).len() implies not_ignored(ignore, #[trigger] (a + b)[k]) by {
        if k < a.len() {
            assert((a + b)[k] == a[k]);
        } else {
            assert((a + b)[k] == b[k - a.len()]);
        }
    }
}

proof fn lemma_step_not_ignored(ctx: ScanContext, st: ScanState, c: CaptureView)
    requires
        none_ignored(ctx.2, st.0),
    ensures
        none_ignored(ctx.2, scan_step(ctx, st, c).0),
{
    match st.1 {
        Some(p) => {
            lemma_emit_not_ignored(ctx, p, None);
            lemma_emit_not_ignored(ctx, p, Some(c.1));
            lemma_join_not_ignored(ctx.2, st.0, emit(ctx, p, None));
            lemma_join_not_ignored(ctx.2, st.0, emit(ctx, p, Some(c.1)));
        },
        None => {
            assert(flush(ctx, st.1) =~= Seq::<TaskView>::empty());
            lemma_join_not_ignored(ctx.2, st.0, Seq::empty());
        },
    }
}

proof fn lemma_captures_not_ignored(ctx: ScanContext, st: ScanState, caps: Seq<CaptureView>)
    requires
        none_ignored(ctx.2, st.0),
    ensures
        none_ignored(ctx.2, scan_captures(ctx, st, caps).0),
    decreases caps.len(),
{
    if caps.len() > 0 {
        lemma_captures_not_ignored(ctx, st, caps.drop_last());
        lemma_step_not_ignored(ctx, scan_captures(ctx, st, caps.drop_last()), caps.last());
    }
}

proof fn lemma_matches_not_ignored(ctx: ScanContext, ms: Seq<Seq<CaptureView>>)
    ensures
        none_ignored(ctx.2, scan_matches(ctx, ms).0),
    decreases ms.len(),
{
    if ms.len() > 0 {
        lemma_matches_not_ignored(ctx, ms.drop_last());
        let prev = scan_matches(ctx, ms.drop_last());
        lemma_captures_not_ignored(ctx, (prev.0, prev.1, Seq::empty()), ms.last());
    }
}

/// The ignore list is honoured over a whole file: every task found names an
/// action that no ignore pattern applies to (no pattern without wildcards
/// occurs in it, no pattern with wildcards matches it).
pub proof fn lemma_file_tasks_honour_ignore_list(path: Seq<char>, content: Seq<char>, ignore: Seq<Seq<char>>)
    ensures
        file_tasks(path, content, ignore) matches Ok(v) ==> none_ignored(ignore, v),
{
    if let (Some(ms), Some(ps)) = (yaml_query_matches(dependency_query(), content), yaml_query_matches(pair_query(), content)) {
        let ctx = (path, provider_for(path), ignore, text_lines(content), ps);
        lemma_matches_not_ignored(ctx, ms);
        let s = scan_matches(ctx, ms);
        match s.1 {
            Some(p) => lemma_emit_not_ignored(ctx, p, None),
            None => assert(flush(ctx, s.1) =~= Seq::<TaskView>::empty()),
        }
        lemma_join_not_ignored(ignore, s.0, flush(ctx, s.1));
    }
}

/// Identifies all dependency update tasks within a YAML file.
///
/// The file is parsed with tree-sitter; the dependency query finds the
/// values of known keys (`uses`, `image`, `pipe`, ..., and CircleCI orbs) and
/// the comments, which are walked in order (see [`scanned_tasks`]). Fails
/// with a parse error when a query cannot be run, or when a capture lies
/// outside the file's lines (see [`file_tasks`]).
pub fn find_tasks(path: &str, content: &str, ignore_list: &Vec<String>) -> (r: Result<Vec<UpdateTask>, PinnerError>)
    ensures
        match file_tasks(path@, content@, ignore_list@.map_values(|s: String| s@)) {
            Ok(v) => r matches Ok(ts) && tasks_view(ts@) == v,
            Err(m) => r matches Err(PinnerError::Parse(e)) && e@ == m,
        },
{
    let matches = match query_captures(dependency_query_text(), content) {
        Some(m) => m,
        None => return Err(PinnerError::Parse(owned("Failed to create tree-sitter query"))),
    };
    let pairs = match query_captures(pair_query_text(), content) {
        Some(p) => p,
        None => return Err(PinnerError::Parse(owned("Failed to create tree-sitter query"))),
    };
    let lines = lines_of(content);
    assert(lines@.len() == text_lines(content@).len()) by {
        assert(lines@.map_values(|l: String| l@).len() == lines@.len());
    }
    if !captures_fit_exec(&matches, lines.len()) {
        return Err(PinnerError::Parse(owned("capture outside the file")));
    }
    let provider = CiProvider::from_path(path);
    Ok(tasks_from_captures(path, provider, ignore_list, &lines, &matches, &pairs))
}

} // verus!
