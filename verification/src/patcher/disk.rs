//! Turning resolved updates into per-file patches.
use crate::domain::update::UpdateResult;
use crate::error::{IoKind, PinnerError};
use crate::cli::OutputFormat;
use crate::patcher::formatter::Formatter;
use crate::patcher::mutator::{update_fits, apply_update, replaced, replacement, update_applicable, updated_text};
use crate::text::{concat, str_eq};
use vstd::prelude::*;

verus! {

// ---------------------------------------------------------------------------
// Grouping by file
// ---------------------------------------------------------------------------

/// The file an update belongs to.
pub open spec fn path_of(r: UpdateResult) -> Seq<char> {
    r.task.path@
}

/// The updates of file `p`, in the order given.
pub open spec fn select(s: Seq<UpdateResult>, p: Seq<char>) -> Seq<UpdateResult>
    decreases s.len(),
{
    if s.len() == 0 {
        s
    } else if path_of(s.last()) == p {
        select(s.drop_last(), p).push(s.last())
    } else {
        select(s.drop_last(), p)
    }
}

/// The updates of all files but `p`, in the order given.
pub open spec fn reject(s: Seq<UpdateResult>, p: Seq<char>) -> Seq<UpdateResult>
    decreases s.len(),
{
    if s.len() == 0 {
        s
    } else if path_of(s.last()) != p {
        reject(s.drop_last(), p).push(s.last())
    } else {
        reject(s.drop_last(), p)
    }
}

/// The files that updates touch, each once, in the order of their first
/// update.
pub open spec fn paths_in_order(s: Seq<UpdateResult>) -> Seq<Seq<char>>
    decreases s.len(),
{
    if s.len() == 0 {
        Seq::empty()
    } else {
        let ps = paths_in_order(s.drop_last());
        if ps.contains(path_of(s.last())) {
            ps
        } else {
            ps.push(path_of(s.last()))
        }
    }
}

// ---------------------------------------------------------------------------
// Ordering within a file
// ---------------------------------------------------------------------------

/// The first position of `sorted` whose update starts before `start`.
pub open spec fn first_below(sorted: Seq<UpdateResult>, start: usize) -> int
    decreases sorted.len(),
{
    if sorted.len() == 0 {
        0
    } else if sorted[0].task.start < start {
        0
    } else {
        1 + first_below(sorted.drop_first(), start)
    }
}

/// `x` inserted after every update that starts at or after it.
pub open spec fn insert_desc(sorted: Seq<UpdateResult>, x: UpdateResult) -> Seq<UpdateResult> {
    sorted.insert(first_below(sorted, x.task.start), x)
}

/// The updates ordered by decreasing start offset; updates with the same start
/// keep their relative order (a stable sort).
pub open spec fn sort_desc(s: Seq<UpdateResult>) -> Seq<UpdateResult>
    decreases s.len(),
{
    if s.len() == 0 {
        s
    } else {
        insert_desc(sort_desc(s.drop_last()), s.last())
    }
}

// ---------------------------------------------------------------------------
// Applying a file's updates
// ---------------------------------------------------------------------------

/// The outcome of applying updates in order to a text: the final text, the
/// (replaced, replacing) pairs of the updates that changed something, and those
/// updates.
pub open spec fn applied(text: Seq<char>, rs: Seq<UpdateResult>) -> (
    Seq<char>,
    Seq<(Seq<char>, Seq<char>)>,
    Seq<UpdateResult>,
)
    decreases rs.len(),
{
    if rs.len() == 0 {
        (text, Seq::empty(), Seq::empty())
    } else {
        let prev = applied(text, rs.drop_last());
        let t = prev.0;
        let x = rs.last();
        if replaced(t, x) == replacement(t, x) {
            prev
        } else {
            (updated_text(t, x), prev.1.push((replaced(t, x), replacement(t, x))), prev.2.push(x))
        }
    }
}

/// Each update applies cleanly to the text left by the ones before it.
pub open spec fn all_applicable(text: Seq<char>, rs: Seq<UpdateResult>) -> bool {
    forall|i: int|
        0 <= i < rs.len() ==> update_applicable(#[trigger] applied(text, rs.take(i)).0, rs[i])
}

/// The content recorded for file `p` (the first entry naming it).
pub open spec fn lookup(files: Seq<(String, String)>, p: Seq<char>) -> Option<Seq<char>>
    decreases files.len(),
{
    if files.len() == 0 {
        None
    } else if files[0].0@ == p {
        Some(files[0].1@)
    } else {
        lookup(files.drop_first(), p)
    }
}

/// The outcome for file `p`: its updates, in decreasing start order, applied to
/// its content.
pub open spec fn file_outcome(results: Seq<UpdateResult>, files: Seq<(String, String)>, p: Seq<char>) -> (
    Seq<char>,
    Seq<(Seq<char>, Seq<char>)>,
    Seq<UpdateResult>,
) {
    applied(lookup(files, p)->0, sort_desc(select(results, p)))
}

/// The first of the paths whose content is missing.
pub open spec fn first_missing(ps: Seq<Seq<char>>, files: Seq<(String, String)>) -> Option<Seq<char>>
    decreases ps.len(),
{
    if ps.len() == 0 {
        None
    } else if lookup(files, ps[0]) is None {
        Some(ps[0])
    } else {
        first_missing(ps.drop_first(), files)
    }
}

/// The paths, among `ps`, whose updates change the file.
pub open spec fn changed_paths(
    ps: Seq<Seq<char>>,
    results: Seq<UpdateResult>,
    files: Seq<(String, String)>,
) -> Seq<Seq<char>>
    decreases ps.len(),
{
    if ps.len() == 0 {
        Seq::empty()
    } else {
        let rest = changed_paths(ps.drop_last(), results, files);
        if file_outcome(results, files, ps.last()).1.len() > 0 {
            rest.push(ps.last())
        } else {
            rest
        }
    }
}

/// The updates of every file apply cleanly: what the patcher needs in order
/// not to panic.
pub open spec fn patches_applicable(results: Seq<UpdateResult>, files: Seq<(String, String)>) -> bool {
    forall|p: Seq<char>|
        #[trigger] paths_in_order(results).contains(p) && lookup(files, p) is Some ==> all_applicable(
            lookup(files, p)->0,
            sort_desc(select(results, p)),
        )
}

/// The views of a list of changes.
pub open spec fn change_views(c: Seq<(String, String)>) -> Seq<(Seq<char>, Seq<char>)> {
    c.map_values(|p: (String, String)| (p.0@, p.1@))
}

/// A set of changes to be applied to a single file.
pub struct FilePatch {
    /// Path to the file.
    pub path: String,
    /// Content of the file before any changes.
    pub original_content: String,
    /// Content of the file after all changes are applied.
    pub new_content: String,
    /// The individual replacements (old, new).
    pub changes: Vec<(String, String)>,
    /// The update results that were applied.
    pub results: Vec<UpdateResult>,
}

/// The patch of file `p`, as the patcher computes it.
pub open spec fn patch_matches(
    patch: FilePatch,
    results: Seq<UpdateResult>,
    files: Seq<(String, String)>,
    p: Seq<char>,
) -> bool {
    let o = file_outcome(results, files, p);
    &&& patch.path@ == p
    &&& patch.original_content@ == lookup(files, p)->0
    &&& patch.new_content@ == o.0
    &&& change_views(patch.changes@) == o.1
    &&& patch.results@ == o.2
}

/// What happens to a computed patch (see [`Patcher::patch_mode`]).
#[derive(Debug, Clone, Copy, PartialEq, Eq, Structural)]
pub enum PatchMode {
    /// Show the whole diff; write nothing.
    Preview,
    /// Show each change, then write the file if the user confirms.
    Confirm,
    /// Write the file without a word.
    Write,
    /// Write nothing; only record the updates.
    Record,
}

/// The patcher coordinates the application of updates to files. Writing them,
/// and asking the user, happens in the executable.
pub struct Patcher {
    /// Formatter for diffs and results.
    pub formatter: Formatter,
    /// If true, no changes will be written to disk.
    pub dry_run: bool,
}

// ---------------------------------------------------------------------------
// Lemmas
// ---------------------------------------------------------------------------

proof fn lemma_select_reject(s: Seq<UpdateResult>, p: Seq<char>, q: Seq<char>)
    requires
        p != q,
    ensures
        select(reject(s, p), q) == select(s, q),
    decreases s.len(),
{
    if s.len() > 0 {
        lemma_select_reject(s.drop_last(), p, q);
        if path_of(s.last()) != p {
            assert(reject(s, p).drop_last() =~= reject(s.drop_last(), p));
        }
    }
}

proof fn lemma_first_below_bounds(sorted: Seq<UpdateResult>, start: usize)
    ensures
        0 <= first_below(sorted, start) <= sorted.len(),
        forall|i: int| 0 <= i < first_below(sorted, start) ==> (#[trigger] sorted[i]).task.start >= start,
        first_below(sorted, start) < sorted.len() ==> sorted[first_below(sorted, start)].task.start
            < start,
    decreases sorted.len(),
{
    if sorted.len() > 0 && sorted[0].task.start >= start {
        lemma_first_below_bounds(sorted.drop_first(), start);
        assert forall|i: int| 0 <= i < first_below(sorted, start) implies (#[trigger] sorted[i]).task.start
            >= start by {
            if i > 0 {
                assert(sorted[i] == sorted.drop_first()[i - 1]);
            }
        }
    }
}

proof fn lemma_paths_distinct(s: Seq<UpdateResult>)
    ensures
        paths_in_order(s).no_duplicates(),
    decreases s.len(),
{
    if s.len() > 0 {
        lemma_paths_distinct(s.drop_last());
    }
}

proof fn lemma_applied_prefix(text: Seq<char>, rs: Seq<UpdateResult>, k: int)
    requires
        0 <= k < rs.len(),
    ensures
        applied(text, rs.take(k + 1)) == ({
            let prev = applied(text, rs.take(k));
            let t = prev.0;
            let x = rs[k];
            if replaced(t, x) == replacement(t, x) {
                prev
            } else {
                (
                    updated_text(t, x),
                    prev.1.push((replaced(t, x), replacement(t, x))),
                    prev.2.push(x),
                )
            }
        }),
{
    assert(rs.take(k + 1).drop_last() =~= rs.take(k));
}

/// The updates of a file are applied from the last offset to the first: the
/// order is decreasing in the start offset.
pub proof fn lemma_sort_desc_ordered(s: Seq<UpdateResult>)
    ensures
        sort_desc(s).len() == s.len(),
        forall|i: int, j: int|
            0 <= i < j < sort_desc(s).len() ==> (#[trigger] sort_desc(s)[i]).task.start
                >= (#[trigger] sort_desc(s)[j]).task.start,
    decreases s.len(),
{
    if s.len() > 0 {
        lemma_sort_desc_ordered(s.drop_last());
        let t = sort_desc(s.drop_last());
        let x = s.last();
        lemma_first_below_bounds(t, x.task.start);
        let k = first_below(t, x.task.start);
        let u = t.insert(k, x);
        assert forall|i: int, j: int| 0 <= i < j < u.len() implies (#[trigger] u[i]).task.start
            >= (#[trigger] u[j]).task.start by {
            if j < k {
                assert(u[i] == t[i] && u[j] == t[j]);
            } else if j == k {
                assert(u[i] == t[i]);
            } else if i < k {
                assert(u[i] == t[i] && u[j] == t[j - 1]);
                if k < t.len() {
                    assert(t[k].task.start < x.task.start);
                }
            } else if i == k {
                assert(u[j] == t[j - 1]);
                assert(t[k].task.start < x.task.start);
                if j - 1 > k {
                    assert(t[k].task.start >= t[j - 1].task.start);
                }
            } else {
                assert(u[i] == t[i - 1] && u[j] == t[j - 1]);
            }
        }
    }
}

/// Reordering loses and adds no update: the sorted updates are a permutation
/// of the given ones.
pub proof fn lemma_sort_desc_permutes(s: Seq<UpdateResult>)
    ensures
        sort_desc(s).to_multiset() == s.to_multiset(),
    decreases s.len(),
{
    broadcast use vstd::seq_lib::group_to_multiset_ensures;
    if s.len() > 0 {
        lemma_sort_desc_permutes(s.drop_last());
        let t = sort_desc(s.drop_last());
        lemma_first_below_bounds(t, s.last().task.start);
        let k = first_below(t, s.last().task.start);
        vstd::seq_lib::to_multiset_insert(t, k, s.last());
        assert(s =~= s.drop_last().push(s.last()));
    }
}

// ---------------------------------------------------------------------------
// The order of the updates does not matter
// ---------------------------------------------------------------------------

/// No two different updates of one file start at the same offset.
pub open spec fn one_update_per_offset(rs: Seq<UpdateResult>) -> bool {
    forall|x: UpdateResult, y: UpdateResult|
        #![trigger rs.to_multiset().count(x), rs.to_multiset().count(y)]
        rs.to_multiset().count(x) > 0 && rs.to_multiset().count(y) > 0 && path_of(x) == path_of(y) && x.task.start
            == y.task.start ==> x == y
}

/// The updates of a file are those of the given ones with that file.
proof fn lemma_select_count(s: Seq<UpdateResult>, p: Seq<char>, x: UpdateResult)
    ensures
        select(s, p).to_multiset().count(x) == if path_of(x) == p {
            s.to_multiset().count(x)
        } else {
            0
        },
    decreases s.len(),
{
    broadcast use vstd::seq_lib::group_to_multiset_ensures;
    if s.len() == 0 {
        assert(s.to_multiset() =~= vstd::multiset::Multiset::<UpdateResult>::empty());
    } else {
        lemma_select_count(s.drop_last(), p, x);
        assert(s =~= s.drop_last().push(s.last()));
    }
}

/// Non-increasing by start offset.
pub open spec fn starts_descend(a: Seq<UpdateResult>) -> bool {
    forall|i: int, j: int| 0 <= i < j < a.len() ==> (#[trigger] a[i]).task.start >= (#[trigger] a[j]).task.start
}

/// Two orderings of the same updates by decreasing start offset agree, when
/// updates with the same start are equal.
proof fn lemma_descending_unique(a: Seq<UpdateResult>, b: Seq<UpdateResult>)
    requires
        a.to_multiset() == b.to_multiset(),
        starts_descend(a),
        starts_descend(b),
        forall|x: UpdateResult, y: UpdateResult|
            #![trigger a.to_multiset().count(x), a.to_multiset().count(y)]
            a.to_multiset().count(x) > 0 && a.to_multiset().count(y) > 0 && x.task.start == y.task.start ==> x == y,
    ensures
        a == b,
    decreases a.len(),
{
    broadcast use vstd::seq_lib::group_to_multiset_ensures;
    vstd::seq_lib::to_multiset_len(a);
    vstd::seq_lib::to_multiset_len(b);
    assert(b.len() == a.len());
    if a.len() == 0 {
        assert(a =~= b);
    } else {
        assert(a.to_multiset().count(a[0]) > 0);
        assert(b.contains(a[0]));
        let j = choose|j: int| 0 <= j < b.len() && b[j] == a[0];
        assert(b.to_multiset().count(b[0]) > 0);
        assert(a.contains(b[0]));
        let k = choose|k: int| 0 <= k < a.len() && a[k] == b[0];
        assert(a[0].task.start >= a[k].task.start);
        assert(b[0].task.start >= b[j].task.start);
        assert(a.to_multiset().count(b[0]) > 0);
        assert(a[0] == b[0]);
        let ra = a.drop_first();
        let rb = b.drop_first();
        assert(a.remove(0) =~= ra);
        assert(b.remove(0) =~= rb);
        assert(ra.to_multiset() == a.to_multiset().remove(a[0]));
        assert(rb.to_multiset() == b.to_multiset().remove(b[0]));
        assert forall|i: int, j2: int| 0 <= i < j2 < ra.len() implies (#[trigger] ra[i]).task.start
            >= (#[trigger] ra[j2]).task.start by {
            assert(ra[i] == a[i + 1] && ra[j2] == a[j2 + 1]);
        }
        assert forall|i: int, j2: int| 0 <= i < j2 < rb.len() implies (#[trigger] rb[i]).task.start
            >= (#[trigger] rb[j2]).task.start by {
            assert(rb[i] == b[i + 1] && rb[j2] == b[j2 + 1]);
        }
        assert forall|x: UpdateResult, y: UpdateResult|
            #![trigger ra.to_multiset().count(x), ra.to_multiset().count(y)]
            ra.to_multiset().count(x) > 0 && ra.to_multiset().count(y) > 0 && x.task.start == y.task.start implies x
                == y by {
            assert(a.to_multiset().count(x) >= ra.to_multiset().count(x));
            assert(a.to_multiset().count(y) >= ra.to_multiset().count(y));
        }
        lemma_descending_unique(ra, rb);
        assert(a =~= b) by {
            assert forall|i: int| 0 <= i < a.len() implies a[i] == b[i] by {
                if i > 0 {
                    assert(a[i] == ra[i - 1] && b[i] == rb[i - 1]);
                }
            }
        }
    }
}

/// A file is among the files of the updates exactly when some update has it.
proof fn lemma_paths_in_order_contains(s: Seq<UpdateResult>, p: Seq<char>)
    ensures
        paths_in_order(s).contains(p) <==> exists|i: int| 0 <= i < s.len() && path_of(#[trigger] s[i]) == p,
    decreases s.len(),
{
    if s.len() > 0 {
        let init = s.drop_last();
        lemma_paths_in_order_contains(init, p);
        let ps = paths_in_order(init);
        let x = path_of(s.last());
        let in_init = exists|i: int| 0 <= i < init.len() && path_of(#[trigger] init[i]) == p;
        let in_s = exists|i: int| 0 <= i < s.len() && path_of(#[trigger] s[i]) == p;
        if in_init {
            let i = choose|i: int| 0 <= i < init.len() && path_of(#[trigger] init[i]) == p;
            assert(s[i] == init[i]);
        }
        if in_s {
            let i = choose|i: int| 0 <= i < s.len() && path_of(#[trigger] s[i]) == p;
            if i < s.len() - 1 {
                assert(init[i] == s[i]);
            }
        }
        assert(s[s.len() - 1] == s.last());
        assert(in_s <==> in_init || x == p);
        if !ps.contains(x) {
            let q = ps.push(x);
            assert(q[ps.len() as int] == x);
            if ps.contains(p) {
                let k = choose|k: int| 0 <= k < ps.len() && ps[k] == p;
                assert(q[k] == p);
            }
            if q.contains(p) {
                let k = choose|k: int| 0 <= k < q.len() && q[k] == p;
                if k < ps.len() {
                    assert(ps[k] == p);
                }
            }
        }
    }
}

/// Some path has no content exactly when the first such one exists.
proof fn lemma_first_missing_exists(ps: Seq<Seq<char>>, files: Seq<(String, String)>)
    ensures
        first_missing(ps, files) is Some <==> exists|i: int| 0 <= i < ps.len() && lookup(files, #[trigger] ps[i]) is None,
    decreases ps.len(),
{
    if ps.len() > 0 {
        let rest = ps.drop_first();
        lemma_first_missing_exists(rest, files);
        if exists|i: int| 0 <= i < rest.len() && lookup(files, #[trigger] rest[i]) is None {
            let i = choose|i: int| 0 <= i < rest.len() && lookup(files, #[trigger] rest[i]) is None;
            assert(ps[i + 1] == rest[i]);
        }
        if exists|i: int| 0 <= i < ps.len() && lookup(files, #[trigger] ps[i]) is None {
            let i = choose|i: int| 0 <= i < ps.len() && lookup(files, #[trigger] ps[i]) is None;
            if i > 0 {
                assert(rest[i - 1] == ps[i]);
            }
        }
    }
}

/// A path is among the changed ones exactly when it is listed and its
/// updates change its file.
proof fn lemma_changed_paths_contains(ps: Seq<Seq<char>>, results: Seq<UpdateResult>, files: Seq<(String, String)>, p: Seq<char>)
    ensures
        changed_paths(ps, results, files).contains(p) <==> ps.contains(p) && file_outcome(results, files, p).1.len() > 0,
    decreases ps.len(),
{
    if ps.len() > 0 {
        let init = ps.drop_last();
        lemma_changed_paths_contains(init, results, files, p);
        let rest = changed_paths(init, results, files);
        if rest.contains(p) {
            let i = choose|i: int| 0 <= i < rest.len() && rest[i] == p;
            assert(rest.push(ps.last())[i] == p);
        }
        if init.contains(p) {
            let i = choose|i: int| 0 <= i < init.len() && init[i] == p;
            assert(ps[i] == p);
        }
        if ps.contains(p) {
            let i = choose|i: int| 0 <= i < ps.len() && ps[i] == p;
            if i < ps.len() - 1 {
                assert(init[i] == p);
            }
        }
        if changed_paths(ps, results, files).contains(p) && !rest.contains(p) {
            let i = choose|i: int| 0 <= i < changed_paths(ps, results, files).len() && changed_paths(ps, results, files)[i] == p;
            assert(changed_paths(ps, results, files) == rest.push(ps.last()));
            assert(i == rest.len());
        }
        assert(ps[ps.len() - 1] == ps.last());
        assert(rest.push(ps.last())[rest.len() as int] == ps.last());
    }
}

/// The patches do not depend on the order of the updates: for any
/// reordering, when no two different updates of one file start at the same
/// offset, the same files are touched, a content is missing for the one as
/// for the other, the same files change, and each file's outcome (its new
/// text, the changes and the updates applied) is the same.
pub proof fn lemma_patches_ignore_order(rs1: Seq<UpdateResult>, rs2: Seq<UpdateResult>, files: Seq<(String, String)>)
    requires
        rs1.to_multiset() == rs2.to_multiset(),
        one_update_per_offset(rs1),
    ensures
        forall|p: Seq<char>| #[trigger] file_outcome(rs1, files, p) == file_outcome(rs2, files, p),
        forall|p: Seq<char>| #[trigger] paths_in_order(rs1).contains(p) <==> paths_in_order(rs2).contains(p),
        first_missing(paths_in_order(rs1), files) is Some <==> first_missing(paths_in_order(rs2), files) is Some,
        forall|p: Seq<char>|
            #[trigger] changed_paths(paths_in_order(rs1), rs1, files).contains(p) <==> changed_paths(
                paths_in_order(rs2),
                rs2,
                files,
            ).contains(p),
{
    broadcast use vstd::seq_lib::group_to_multiset_ensures;
    assert forall|p: Seq<char>| #[trigger] file_outcome(rs1, files, p) == file_outcome(rs2, files, p) by {
        let s1 = select(rs1, p);
        let s2 = select(rs2, p);
        assert(s1.to_multiset() =~= s2.to_multiset()) by {
            assert forall|x: UpdateResult| s1.to_multiset().count(x) == s2.to_multiset().count(x) by {
                lemma_select_count(rs1, p, x);
                lemma_select_count(rs2, p, x);
            }
        }
        let a = sort_desc(s1);
        let b = sort_desc(s2);
        lemma_sort_desc_permutes(s1);
        lemma_sort_desc_permutes(s2);
        lemma_sort_desc_ordered(s1);
        lemma_sort_desc_ordered(s2);
        assert forall|x: UpdateResult, y: UpdateResult|
            #![trigger a.to_multiset().count(x), a.to_multiset().count(y)]
            a.to_multiset().count(x) > 0 && a.to_multiset().count(y) > 0 && x.task.start == y.task.start implies x
                == y by {
            lemma_select_count(rs1, p, x);
            lemma_select_count(rs1, p, y);
        }
        lemma_descending_unique(a, b);
    }
    assert forall|p: Seq<char>| #[trigger] paths_in_order(rs1).contains(p) <==> paths_in_order(rs2).contains(p) by {
        lemma_paths_in_order_contains(rs1, p);
        lemma_paths_in_order_contains(rs2, p);
        if exists|i: int| 0 <= i < rs1.len() && path_of(#[trigger] rs1[i]) == p {
            let i = choose|i: int| 0 <= i < rs1.len() && path_of(#[trigger] rs1[i]) == p;
            assert(rs1.to_multiset().count(rs1[i]) > 0);
            assert(rs2.contains(rs1[i]));
        }
        if exists|i: int| 0 <= i < rs2.len() && path_of(#[trigger] rs2[i]) == p {
            let i = choose|i: int| 0 <= i < rs2.len() && path_of(#[trigger] rs2[i]) == p;
            assert(rs2.to_multiset().count(rs2[i]) > 0);
            assert(rs1.contains(rs2[i]));
        }
    }
    let ps1 = paths_in_order(rs1);
    let ps2 = paths_in_order(rs2);
    lemma_first_missing_exists(ps1, files);
    lemma_first_missing_exists(ps2, files);
    if first_missing(ps1, files) is Some {
        let i = choose|i: int| 0 <= i < ps1.len() && lookup(files, #[trigger] ps1[i]) is None;
        assert(ps1.contains(ps1[i]));
        assert(ps2.contains(ps1[i]));
        let j = choose|j: int| 0 <= j < ps2.len() && ps2[j] == ps1[i];
        assert(lookup(files, ps2[j]) is None);
    }
    if first_missing(ps2, files) is Some {
        let i = choose|i: int| 0 <= i < ps2.len() && lookup(files, #[trigger] ps2[i]) is None;
        assert(ps2.contains(ps2[i]));
        assert(ps1.contains(ps2[i]));
        let j = choose|j: int| 0 <= j < ps1.len() && ps1[j] == ps2[i];
        assert(lookup(files, ps1[j]) is None);
    }
    assert forall|p: Seq<char>|
        #[trigger] changed_paths(ps1, rs1, files).contains(p) <==> changed_paths(ps2, rs2, files).contains(p) by {
        lemma_changed_paths_contains(ps1, rs1, files, p);
        lemma_changed_paths_contains(ps2, rs2, files, p);
        assert(file_outcome(rs1, files, p) == file_outcome(rs2, files, p));
        assert(ps1.contains(p) <==> ps2.contains(p));
    }
}

/// Applying updates records one change for each update that changed the
/// text.
proof fn lemma_applied_lengths(text: Seq<char>, rs: Seq<UpdateResult>)
    ensures
        applied(text, rs).1.len() == applied(text, rs).2.len(),
    decreases rs.len(),
{
    if rs.len() > 0 {
        lemma_applied_lengths(text, rs.drop_last());
    }
}

/// No path is listed twice.
pub open spec fn distinct_paths(ps: Seq<Seq<char>>) -> bool {
    forall|i: int, j: int| 0 <= i < j < ps.len() ==> #[trigger] ps[i] != #[trigger] ps[j]
}

proof fn lemma_changed_paths_distinct(ps: Seq<Seq<char>>, results: Seq<UpdateResult>, files: Seq<(String, String)>)
    requires
        distinct_paths(ps),
    ensures
        distinct_paths(changed_paths(ps, results, files)),
    decreases ps.len(),
{
    if ps.len() > 0 {
        let init = ps.drop_last();
        assert forall|i: int, j: int| 0 <= i < j < init.len() implies #[trigger] init[i] != #[trigger] init[j] by {
            assert(init[i] == ps[i] && init[j] == ps[j]);
        }
        lemma_changed_paths_distinct(init, results, files);
        let rest = changed_paths(init, results, files);
        if file_outcome(results, files, ps.last()).1.len() > 0 {
            let q = rest.push(ps.last());
            lemma_changed_paths_contains(init, results, files, ps.last());
            assert(!init.contains(ps.last())) by {
                if init.contains(ps.last()) {
                    let k = choose|k: int| 0 <= k < init.len() && init[k] == ps.last();
                    assert(ps[k] == ps[ps.len() - 1]);
                }
            }
            assert forall|i: int, j: int| 0 <= i < j < q.len() implies #[trigger] q[i] != #[trigger] q[j] by {
                if j == rest.len() {
                    assert(q[i] == rest[i]);
                    assert(rest.contains(rest[i]));
                } else {
                    assert(q[i] == rest[i] && q[j] == rest[j]);
                }
            }
        }
    }
}

/// The updates recorded as applied are among those applied.
proof fn lemma_applied_from(text: Seq<char>, rs: Seq<UpdateResult>)
    ensures
        forall|k: int| 0 <= k < applied(text, rs).2.len() ==> rs.contains(#[trigger] applied(text, rs).2[k]),
    decreases rs.len(),
{
    if rs.len() > 0 {
        let init = rs.drop_last();
        lemma_applied_from(text, init);
        let prev = applied(text, init);
        assert forall|k: int| 0 <= k < prev.2.len() implies rs.contains(#[trigger] prev.2[k]) by {
            let m = choose|m: int| 0 <= m < init.len() && init[m] == prev.2[k];
            assert(rs[m] == init[m]);
        }
        assert(rs[rs.len() - 1] == rs.last());
        let now = applied(text, rs);
        assert forall|k: int| 0 <= k < now.2.len() implies rs.contains(#[trigger] now.2[k]) by {
            if k < prev.2.len() {
                assert(now.2[k] == prev.2[k]);
            }
        }
    }
}

/// The shape of the patches: each file is patched at most once, only when
/// its updates change it, with one change per update applied, and every
/// update applied to a file is one of that file's.
pub proof fn lemma_patch_shape(results: Seq<UpdateResult>, files: Seq<(String, String)>)
    ensures
        distinct_paths(changed_paths(paths_in_order(results), results, files)),
        forall|p: Seq<char>|
            #[trigger] changed_paths(paths_in_order(results), results, files).contains(p) ==> file_outcome(
                results,
                files,
                p,
            ).1.len() > 0,
        forall|p: Seq<char>| #[trigger] file_outcome(results, files, p).1.len() == file_outcome(results, files, p).2.len(),
        forall|p: Seq<char>, k: int|
            0 <= k < file_outcome(results, files, p).2.len() ==> path_of(#[trigger] file_outcome(results, files, p).2[k]) == p,
{
    broadcast use vstd::seq_lib::group_to_multiset_ensures;
    lemma_paths_distinct(results);
    lemma_changed_paths_distinct(paths_in_order(results), results, files);
    assert forall|p: Seq<char>|
        #[trigger] changed_paths(paths_in_order(results), results, files).contains(p) implies file_outcome(
            results,
            files,
            p,
        ).1.len() > 0 by {
        lemma_changed_paths_contains(paths_in_order(results), results, files, p);
    }
    assert forall|p: Seq<char>| #[trigger] file_outcome(results, files, p).1.len() == file_outcome(results, files, p).2.len() by {
        lemma_applied_lengths(lookup(files, p)->0, sort_desc(select(results, p)));
    }
    assert forall|p: Seq<char>, k: int|
        0 <= k < file_outcome(results, files, p).2.len() implies path_of(#[trigger] file_outcome(results, files, p).2[k]) == p by {
        let sorted = sort_desc(select(results, p));
        let x = file_outcome(results, files, p).2[k];
        lemma_applied_from(lookup(files, p)->0, sorted);
        assert(sorted.contains(x));
        lemma_sort_desc_permutes(select(results, p));
        assert(sorted.to_multiset().count(x) > 0);
        lemma_select_count(results, p, x);
    }
}

/// Patching fails exactly when some update's file has no content.
pub proof fn lemma_patch_failure(results: Seq<UpdateResult>, files: Seq<(String, String)>)
    ensures
        first_missing(paths_in_order(results), files) is Some <==> exists|i: int|
            0 <= i < results.len() && lookup(files, path_of(#[trigger] results[i])) is None,
{
    let ps = paths_in_order(results);
    lemma_first_missing_exists(ps, files);
    if first_missing(ps, files) is Some {
        let j = choose|j: int| 0 <= j < ps.len() && lookup(files, #[trigger] ps[j]) is None;
        assert(ps.contains(ps[j]));
        lemma_paths_in_order_contains(results, ps[j]);
    }
    if exists|i: int| 0 <= i < results.len() && lookup(files, path_of(#[trigger] results[i])) is None {
        let i = choose|i: int| 0 <= i < results.len() && lookup(files, path_of(#[trigger] results[i])) is None;
        lemma_paths_in_order_contains(results, path_of(results[i]));
        let j = choose|j: int| 0 <= j < ps.len() && ps[j] == path_of(results[i]);
        assert(lookup(files, ps[j]) is None);
    }
}

// ---------------------------------------------------------------------------
// Executable steps
// ---------------------------------------------------------------------------

/// Whether `p` is among the paths.
fn contains_path(ps: &Vec<String>, p: &String) -> (r: bool)
    ensures
        r == ps@.map_values(|s: String| s@).contains(p@),
{
    let ghost pv = ps@.map_values(|s: String| s@);
    let mut j: usize = 0;
    while j < ps.len()
        invariant
            0 <= j <= ps.len(),
            pv == ps@.map_values(|s: String| s@),
            forall|k: int| 0 <= k < j ==> pv[k] != p@,
        decreases ps.len() - j,
    {
        if str_eq(ps[j].as_str(), p.as_str()) {
            assert(pv[j as int] == p@);
            return true;
        }
        j = j + 1;
    }
    false
}

/// The distinct files of the updates, in the order of their first update.
fn collect_paths(results: &Vec<UpdateResult>) -> (ps: Vec<String>)
    ensures
        ps@.map_values(|s: String| s@) == paths_in_order(results@),
{
    let mut ps: Vec<String> = Vec::new();
    let mut i: usize = 0;
    while i < results.len()
        invariant
            0 <= i <= results.len(),
            ps@.map_values(|s: String| s@) == paths_in_order(results@.take(i as int)),
        decreases results.len() - i,
    {
        let p = &results[i].task.path;
        assert(results@.take(i + 1).drop_last() =~= results@.take(i as int));
        let ghost pv = ps@.map_values(|s: String| s@);
        let found = contains_path(&ps, p);
        if !found {
            ps.push(p.clone());
            assert(ps@.map_values(|s: String| s@) =~= pv.push(p@));
        }
        i = i + 1;
    }
    assert(results@.take(results.len() as int) =~= results@);
    ps
}

/// Moves the updates of file `p` out of `pool`, keeping both parts in order.
fn extract(pool: &mut Vec<UpdateResult>, p: &String) -> (g: Vec<UpdateResult>)
    ensures
        g@ == select(old(pool)@, p@),
        final(pool)@ == reject(old(pool)@, p@),
{
    let ghost orig = pool@;
    let mut g: Vec<UpdateResult> = Vec::new();
    let mut k: usize = 0;
    let mut i: usize = 0;
    let n = pool.len();
    while k < n
        invariant
            n == orig.len(),
            0 <= k <= n,
            g@ == select(orig.take(k as int), p@),
            i == reject(orig.take(k as int), p@).len(),
            pool@ == reject(orig.take(k as int), p@) + orig.skip(k as int),
        decreases n - k,
    {
        assert(orig.take(k + 1).drop_last() =~= orig.take(k as int));
        assert(pool@.len() == i + (n - k));
        assert(pool@[i as int] == orig[k as int]);
        if str_eq(pool[i].task.path.as_str(), p.as_str()) {
            let x = pool.remove(i);
            g.push(x);
            assert(pool@ =~= reject(orig.take(k + 1), p@) + orig.skip(k + 1));
        } else {
            assert(pool@ =~= reject(orig.take(k + 1), p@) + orig.skip(k + 1));
            let len = pool.len();
            assert(i < len);
            i = i + 1;
        }
        k = k + 1;
    }
    assert(orig.take(n as int) =~= orig);
    assert(pool@ =~= reject(orig, p@));
    g
}

/// Sorts updates by decreasing start offset, stably (insertion sort).
fn sort_by_start_desc(items: Vec<UpdateResult>) -> (r: Vec<UpdateResult>)
    ensures
        r@ == sort_desc(items@),
{
    let ghost all = items@;
    let mut items = items;
    let mut sorted: Vec<UpdateResult> = Vec::new();
    let n = items.len();
    let mut k: usize = 0;
    while k < n
        invariant
            n == all.len(),
            0 <= k <= n,
            items@ == all.skip(k as int),
            sorted@ == sort_desc(all.take(k as int)),
        decreases n - k,
    {
        let x = items.remove(0);
        assert(x == all[k as int]);
        assert(all.skip(k + 1) =~= all.skip(k as int).remove(0));
        assert(all.take(k + 1).drop_last() =~= all.take(k as int));
        let mut pos: usize = 0;
        assert(sorted@.skip(0) =~= sorted@);
        while pos < sorted.len() && sorted[pos].task.start >= x.task.start
            invariant
                0 <= pos <= sorted.len(),
                first_below(sorted@, x.task.start) == pos + first_below(
                    sorted@.skip(pos as int),
                    x.task.start,
                ),
            decreases sorted.len() - pos,
        {
            assert(sorted@.skip(pos as int).drop_first() =~= sorted@.skip(pos + 1));
            pos = pos + 1;
        }
        proof {
            if pos < sorted.len() {
                assert(sorted@.skip(pos as int)[0] == sorted@[pos as int]);
            }
        }
        assert(first_below(sorted@, x.task.start) == pos) by {
            assert(sorted@.skip(0) =~= sorted@);
        }
        sorted.insert(pos, x);
        k = k + 1;
    }
    assert(all.take(n as int) =~= all);
    sorted
}

/// The content recorded for `p`.
fn find_content<'a>(files: &'a Vec<(String, String)>, p: &String) -> (r: Option<&'a String>)
    ensures
        match r {
            Some(c) => lookup(files@, p@) == Some(c@),
            None => lookup(files@, p@) is None,
        },
{
    let mut i: usize = 0;
    assert(files@.skip(0) =~= files@);
    while i < files.len()
        invariant
            0 <= i <= files.len(),
            lookup(files@, p@) == lookup(files@.skip(i as int), p@),
        decreases files.len() - i,
    {
        assert(files@.skip(i as int)[0] == files@[i as int]);
        assert(files@.skip(i as int).drop_first() =~= files@.skip(i + 1));
        if str_eq(files[i].0.as_str(), p.as_str()) {
            return Some(&files[i].1);
        }
        i = i + 1;
    }
    None
}

/// Applies the updates, in order, to `content`.
fn apply_all(content: &String, updates: Vec<UpdateResult>) -> (r: (String, Vec<(String, String)>, Vec<UpdateResult>))
    requires
        all_applicable(content@, updates@),
    ensures
        r.0@ == applied(content@, updates@).0,
        change_views(r.1@) == applied(content@, updates@).1,
        r.2@ == applied(content@, updates@).2,
{
    let ghost all = updates@;
    let mut updates = updates;
    let mut text = content.clone();
    let mut changes: Vec<(String, String)> = Vec::new();
    let mut done: Vec<UpdateResult> = Vec::new();
    let n = updates.len();
    let mut k: usize = 0;
    while k < n
        invariant
            n == all.len(),
            0 <= k <= n,
            all_applicable(content@, all),
            updates@ == all.skip(k as int),
            text@ == applied(content@, all.take(k as int)).0,
            change_views(changes@) == applied(content@, all.take(k as int)).1,
            done@ == applied(content@, all.take(k as int)).2,
        decreases n - k,
    {
        let x = updates.remove(0);
        assert(x == all[k as int]);
        assert(all.skip(k + 1) =~= all.skip(k as int).remove(0));
        proof {
            lemma_applied_prefix(content@, all, k as int);
            assert(update_applicable(applied(content@, all.take(k as int)).0, all[k as int]));
        }
        match apply_update(&mut text, &x) {
            Ok(Some(pair)) => {
                let ghost cv = change_views(changes@);
                changes.push(pair);
                assert(change_views(changes@) =~= cv.push((pair.0@, pair.1@)));
                done.push(x);
            },
            _ => {},
        }
        k = k + 1;
    }
    assert(all.take(n as int) =~= all);
    (text, changes, done)
}

/// Whether the updates, in order, each fit the text left by the ones before.
fn fits_all(content: &String, updates: Vec<UpdateResult>) -> (r: bool)
    ensures
        r == all_applicable(content@, updates@),
{
    let ghost all = updates@;
    let mut pending = updates;
    let mut text = content.clone();
    let n = pending.len();
    let mut k: usize = 0;
    while k < n
        invariant
            n == all.len(),
            0 <= k <= n,
            all == updates@,
            pending@ == all.skip(k as int),
            text@ == applied(content@, all.take(k as int)).0,
            forall|i: int| 0 <= i < k ==> update_applicable(#[trigger] applied(content@, all.take(i)).0, all[i]),
        decreases n - k,
    {
        let x = pending.remove(0);
        assert(x == all[k as int]);
        assert(all.skip(k + 1) =~= all.skip(k as int).remove(0));
        if !update_fits(text.as_str(), &x) {
            assert(!update_applicable(applied(content@, all.take(k as int)).0, all[k as int]));
            assert(!all_applicable(content@, all));
            return false;
        }
        proof {
            lemma_applied_prefix(content@, all, k as int);
        }
        let _ = apply_update(&mut text, &x);
        k = k + 1;
    }
    true
}

impl Patcher {
    /// Creates a new `Patcher`.
    pub fn new(formatter: Formatter, dry_run: bool) -> (r: Self)
        ensures
            r.formatter == formatter,
            r.dry_run == dry_run,
    {
        Patcher { formatter, dry_run }
    }

    /// What happens to a computed patch: on the text console (not quiet) it
    /// is shown, as a whole diff in a dry run, else change by change before
    /// the user is asked whether to write it; otherwise it is written without
    /// a word, or, in a dry run, only recorded.
    pub fn patch_mode(&self) -> (r: PatchMode)
        ensures
            r == (if self.formatter.format == OutputFormat::Text && !self.formatter.quiet {
                if self.dry_run {
                    PatchMode::Preview
                } else {
                    PatchMode::Confirm
                }
            } else if self.dry_run {
                PatchMode::Record
            } else {
                PatchMode::Write
            }),
    {
        let console = match self.formatter.format {
            OutputFormat::Text => !self.formatter.quiet,
            _ => false,
        };
        if console {
            if self.dry_run {
                PatchMode::Preview
            } else {
                PatchMode::Confirm
            }
        } else if self.dry_run {
            PatchMode::Record
        } else {
            PatchMode::Write
        }
    }

    /// Whether every file's updates fit its content (see
    /// [`patches_applicable`]): the check to make before
    /// [`Patcher::calculate_patches`]; `results` is a copy of the updates.
    pub fn patches_fit(&self, results: Vec<UpdateResult>, file_contents: &Vec<(String, String)>) -> (r: bool)
        ensures
            r == patches_applicable(results@, file_contents@),
    {
        let ghost rs = results@;
        let ghost files = file_contents@;
        let paths = collect_paths(&results);
        let ghost pv = paths@.map_values(|s: String| s@);
        proof {
            lemma_paths_distinct(rs);
        }
        let mut pool = results;
        let mut j: usize = 0;
        assert(pv.take(0) =~= Seq::<Seq<char>>::empty());
        while j < paths.len()
            invariant
                0 <= j <= paths.len(),
                pv == paths@.map_values(|s: String| s@),
                pv == paths_in_order(rs),
                pv.no_duplicates(),
                files == file_contents@,
                rs == results@,
                forall|q: Seq<char>| !pv.take(j as int).contains(q) ==> select(pool@, q) == select(rs, q),
                forall|q: Seq<char>|
                    #[trigger] pv.take(j as int).contains(q) && lookup(files, q) is Some ==> all_applicable(
                        lookup(files, q)->0,
                        sort_desc(select(rs, q)),
                    ),
            decreases paths.len() - j,
        {
            let p = &paths[j];
            assert(pv[j as int] == p@);
            assert(pv.take(j + 1).drop_last() =~= pv.take(j as int));
            assert(!pv.take(j as int).contains(p@)) by {
                if pv.take(j as int).contains(p@) {
                    let k = choose|k: int| 0 <= k < j && pv.take(j as int)[k] == p@;
                    assert(pv[k] == pv[j as int]);
                }
            }
            let ghost pool0 = pool@;
            let group = extract(&mut pool, p);
            assert(group@ == select(rs, p@));
            proof {
                assert(pv.take(j + 1)[j as int] == p@);
                assert forall|q: Seq<char>| !pv.take(j + 1).contains(q) implies select(pool@, q) == select(rs, q) by {
                    assert(q != p@);
                    assert(!pv.take(j as int).contains(q)) by {
                        if pv.take(j as int).contains(q) {
                            let k = choose|k: int| 0 <= k < j && pv.take(j as int)[k] == q;
                            assert(pv.take(j + 1)[k] == q);
                        }
                    }
                    lemma_select_reject(pool0, p@, q);
                }
            }
            match find_content(file_contents, p) {
                Some(c) => {
                    let sorted = sort_by_start_desc(group);
                    let ghost sv = sorted@;
                    if !fits_all(c, sorted) {
                        assert(paths_in_order(rs).contains(p@)) by {
                            assert(pv[j as int] == p@);
                        }
                        assert(lookup(files, p@) == Some(c@));
                        assert(sv == sort_desc(select(rs, p@)));
                        assert(!all_applicable(lookup(files, p@)->0, sort_desc(select(rs, p@))));
                        assert(!patches_applicable(rs, files));
                        return false;
                    }
                },
                None => {},
            }
            assert forall|q: Seq<char>|
                #[trigger] pv.take(j + 1).contains(q) && lookup(files, q) is Some implies all_applicable(
                    lookup(files, q)->0,
                    sort_desc(select(rs, q)),
                ) by {
                if q != p@ {
                    let t = pv.take(j + 1);
                    let k = choose|k: int| 0 <= k < t.len() && t[k] == q;
                    assert(k < j);
                    assert(pv.take(j as int)[k] == q);
                }
            }
            j = j + 1;
        }
        assert(pv.take(paths.len() as int) =~= pv);
        true
    }

    /// Calculates one patch per changed file from the update results.
    ///
    /// A pure computation without I/O: the updates of each file are applied to
    /// its content in decreasing order of their start offset, so that applying
    /// one update (which may change the length of the text) does not move the
    /// offsets of those still to come. Files are taken in the order of their
    /// first update; a file whose updates change nothing gets no patch. When
    /// the content of a file is missing the result is an I/O error of kind
    /// `NotFound` naming it.
    pub fn calculate_patches(&self, results: Vec<UpdateResult>, file_contents: &Vec<(String, String)>) -> (r: Result<Vec<FilePatch>, PinnerError>)
        requires
            patches_applicable(results@, file_contents@),
        ensures
            r is Err <==> first_missing(paths_in_order(results@), file_contents@) is Some,
            r matches Err(e) ==> e matches PinnerError::Io(k, m) && k == IoKind::NotFound && m@ == "Content for file "@
                + first_missing(paths_in_order(results@), file_contents@)->0 + " not found"@,
            r matches Ok(patches) ==> ({
                let cp = changed_paths(paths_in_order(results@), results@, file_contents@);
                &&& patches@.len() == cp.len()
                &&& forall|i: int|
                    0 <= i < cp.len() ==> patch_matches(
                        #[trigger] patches@[i],
                        results@,
                        file_contents@,
                        cp[i],
                    )
            }),
    {
        let ghost rs = results@;
        let ghost files = file_contents@;
        let paths = collect_paths(&results);
        let ghost pv = paths@.map_values(|s: String| s@);
        proof {
            lemma_paths_distinct(rs);
        }
        let mut pool = results;
        let mut patches: Vec<FilePatch> = Vec::new();
        let mut j: usize = 0;
        assert(pv.skip(0) =~= pv);
        assert(pv.take(0) =~= Seq::<Seq<char>>::empty());
        while j < paths.len()
            invariant
                0 <= j <= paths.len(),
                pv == paths@.map_values(|s: String| s@),
                pv == paths_in_order(rs),
                pv.no_duplicates(),
                patches_applicable(rs, files),
                files == file_contents@,
                rs == results@,
                first_missing(pv, files) == first_missing(pv.skip(j as int), files),
                forall|q: Seq<char>| !pv.take(j as int).contains(q) ==> select(pool@, q) == select(rs, q),
                patches@.len() == changed_paths(pv.take(j as int), rs, files).len(),
                forall|i: int|
                    0 <= i < patches@.len() ==> patch_matches(
                        #[trigger] patches@[i],
                        rs,
                        files,
                        changed_paths(pv.take(j as int), rs, files)[i],
                    ),
            decreases paths.len() - j,
        {
            let p = &paths[j];
            assert(pv[j as int] == p@);
            assert(pv.skip(j as int)[0] == p@);
            assert(pv.skip(j as int).drop_first() =~= pv.skip(j + 1));
            assert(pv.take(j + 1).drop_last() =~= pv.take(j as int));
            assert(!pv.take(j as int).contains(p@)) by {
                if pv.take(j as int).contains(p@) {
                    let k = choose|k: int| 0 <= k < j && pv.take(j as int)[k] == p@;
                    assert(pv[k] == pv[j as int]);
                }
            }
            let ghost pool0 = pool@;
            let group = extract(&mut pool, p);
            assert(group@ == select(rs, p@));
            proof {
                assert(pv.take(j + 1)[j as int] == p@);
                assert(pv.take(j + 1).contains(p@));
                assert forall|q: Seq<char>| !pv.take(j + 1).contains(q) implies select(pool@, q) == select(rs, q) by {
                    assert(q != p@);
                    assert(!pv.take(j as int).contains(q)) by {
                        if pv.take(j as int).contains(q) {
                            let k = choose|k: int| 0 <= k < j && pv.take(j as int)[k] == q;
                            assert(pv.take(j + 1)[k] == q);
                        }
                    }
                    lemma_select_reject(pool0, p@, q);
                }
            }
            let content = match find_content(file_contents, p) {
                Some(c) => c,
                None => {
                    assert(first_missing(pv.skip(j as int), files) == Some(p@));
                    assert(first_missing(paths_in_order(rs), files) == Some(p@));
                    return Err(PinnerError::Io(IoKind::NotFound, {
                        let a = concat("Content for file ", p.as_str());
                        concat(a.as_str(), " not found")
                    }));
                },
            };
            let sorted = sort_by_start_desc(group);
            proof {
                assert(paths_in_order(rs).contains(p@));
            }
            let (new_content, changes, applied_results) = apply_all(content, sorted);
            let ghost before = patches@;
            if changes.len() > 0 {
                patches.push(
                    FilePatch {
                        path: p.clone(),
                        original_content: content.clone(),
                        new_content,
                        changes,
                        results: applied_results,
                    },
                );
                assert forall|i: int| 0 <= i < patches@.len() implies patch_matches(
                    #[trigger] patches@[i],
                    rs,
                    files,
                    changed_paths(pv.take(j + 1), rs, files)[i],
                ) by {
                    if i < before.len() {
                        assert(patches@[i] == before[i]);
                    }
                }
            } else {
                assert(change_views(changes@).len() == changes@.len());
            }
            j = j + 1;
        }
        assert(pv.take(paths.len() as int) =~= pv);
        assert(pv.skip(paths.len() as int) =~= Seq::<Seq<char>>::empty());
        Ok(patches)
    }
}

} // verus!
