//! The security scan: which references to check, how to judge what OSV and
//! the registries answer, and what to record in the configuration.
use crate::config::{entries_of, has_ref, merge_entries, SecurityEntry};
use crate::domain::dependency::{DependencyName, DependencyRef};
use crate::domain::update::{is_git_sha, is_git_sha_exec, logical_tag_of, opt_view, UpdateResult, UpdateTask};
use crate::pipeline::verify::without_scheme;
use crate::scanner::parser::lowercase;
use crate::text::{chars_of, concat, contains, contains_exec, has_prefix, owned, slice_chars, starts_with, str_eq, string_of};
use vstd::prelude::*;

verus! {

// ---------------------------------------------------------------------------
// Tasks already pinned
// ---------------------------------------------------------------------------

/// A task pinned to a commit SHA is scanned as it stands; the others are
/// resolved first.
pub open spec fn sha_pinned(t: UpdateTask) -> bool {
    t.current_tag matches Some(tag) && is_git_sha(tag@)
}

/// The tasks already pinned to a commit, and the others, in order.
pub open spec fn split_by_pin(ts: Seq<UpdateTask>) -> (Seq<UpdateTask>, Seq<UpdateTask>)
    decreases ts.len(),
{
    if ts.len() == 0 {
        (Seq::empty(), Seq::empty())
    } else {
        let prev = split_by_pin(ts.drop_last());
        if sha_pinned(ts.last()) {
            (prev.0.push(ts.last()), prev.1)
        } else {
            (prev.0, prev.1.push(ts.last()))
        }
    }
}

/// The result that stands for a task already pinned to commit `tag`: the
/// commit itself, recorded with the task's logical tag.
pub open spec fn pinned_result(r: UpdateResult, t: UpdateTask) -> bool {
    &&& r.task == t
    &&& r.action == t.action
    &&& r.path == t.path
    &&& r.old_tag == t.current_tag
    &&& r.new_sha == DependencyRef::GitSha(t.current_tag->0)
    &&& opt_view(r.new_tag) == Some(logical_tag_of(t.current_tag->0@, opt_view(t.comment)))
}

fn copy_opt(o: &Option<String>) -> (r: Option<String>)
    ensures
        r == *o,
{
    match o {
        Some(s) => Some(s.clone()),
        None => None,
    }
}

/// Splits the tasks into results for those already pinned to a commit, and
/// the tasks still to resolve (see [`split_by_pin`]).
pub fn split_pinned(tasks: Vec<UpdateTask>) -> (r: (Vec<UpdateResult>, Vec<UpdateTask>))
    ensures
        r.0@.len() == split_by_pin(tasks@).0.len(),
        forall|i: int| 0 <= i < r.0@.len() ==> pinned_result(#[trigger] r.0@[i], split_by_pin(tasks@).0[i]),
        r.1@ == split_by_pin(tasks@).1,
{
    let ghost all = tasks@;
    let mut rest = tasks;
    let mut results: Vec<UpdateResult> = Vec::new();
    let mut others: Vec<UpdateTask> = Vec::new();
    let n = rest.len();
    let mut k: usize = 0;
    while k < n
        invariant
            n == all.len(),
            0 <= k <= n,
            rest@ == all.skip(k as int),
            results@.len() == split_by_pin(all.take(k as int)).0.len(),
            forall|i: int| 0 <= i < results@.len() ==> pinned_result(#[trigger] results@[i], split_by_pin(all.take(k as int)).0[i]),
            others@ == split_by_pin(all.take(k as int)).1,
        decreases n - k,
    {
        let t = rest.remove(0);
        assert(t == all[k as int]);
        assert(all.skip(k + 1) =~= all.skip(k as int).remove(0));
        assert(all.take(k + 1).drop_last() =~= all.take(k as int));
        let pinned_sha = match &t.current_tag {
            Some(tag) => is_git_sha_exec(&chars_of(tag.as_str())),
            None => false,
        };
        if pinned_sha {
            let tag = match &t.current_tag {
                Some(tag) => tag.clone(),
                None => String::new(),
            };
            let new_tag = t.logical_tag();
            let res = UpdateResult {
                action: DependencyName(t.action.0.clone()),
                path: t.path.clone(),
                old_tag: copy_opt(&t.current_tag),
                new_sha: DependencyRef::GitSha(tag),
                new_tag,
                task: t,
            };
            let ghost before = results@;
            results.push(res);
            assert forall|i: int| 0 <= i < results@.len() implies pinned_result(#[trigger] results@[i], split_by_pin(all.take(k + 1)).0[i]) by {
                if i < before.len() {
                    assert(results@[i] == before[i]);
                }
            }
        } else {
            others.push(t);
        }
        k = k + 1;
    }
    assert(all.take(n as int) =~= all);
    (results, others)
}

// ---------------------------------------------------------------------------
// Scan targets
// ---------------------------------------------------------------------------

/// A reference to scan, with the tag it stands for and its upgrade candidate
/// (as shown in the report).
#[derive(Debug, Clone, PartialEq, Eq)]
pub struct ScanTarget {
    pub action: DependencyName,
    pub sha: String,
    pub tag: Option<String>,
    pub candidate: String,
}

pub type TargetView = (Seq<char>, Seq<char>, Option<Seq<char>>, Seq<char>);

pub open spec fn target_view(t: ScanTarget) -> TargetView {
    (t.action.0@, t.sha@, opt_view(t.tag), t.candidate@)
}

/// How an upgrade candidate is shown: `ref # tag`, `ref`, or `None`.
pub open spec fn candidate_text(c: Option<(DependencyRef, Option<String>)>) -> Seq<char> {
    match c {
        Some((r, Some(t))) => r.text() + " # "@ + t@,
        Some((r, None)) => r.text(),
        None => "None"@,
    }
}

/// The targets of one result: its own reference, and its upgrade candidate
/// when that is another reference.
pub open spec fn targets_of(r: UpdateResult, c: Option<(DependencyRef, Option<String>)>) -> Seq<TargetView> {
    let own = (r.action.0@, r.new_sha.text(), opt_view(r.new_tag), candidate_text(c));
    match c {
        Some((cr, ct)) => if cr.text() != r.new_sha.text() {
            seq![own, (r.action.0@, cr.text(), opt_view(ct), "None"@)]
        } else {
            seq![own]
        },
        None => seq![own],
    }
}

/// The targets of all results, in order.
pub open spec fn all_targets(rs: Seq<UpdateResult>, cs: Seq<Option<(DependencyRef, Option<String>)>>) -> Seq<TargetView>
    decreases rs.len(),
{
    if rs.len() == 0 {
        Seq::empty()
    } else {
        all_targets(rs.drop_last(), cs.take(rs.len() - 1)) + targets_of(rs.last(), cs[rs.len() - 1])
    }
}

/// The targets with the first of each (action, reference) pair kept.
pub open spec fn dedup_targets(ts: Seq<TargetView>) -> Seq<TargetView>
    decreases ts.len(),
{
    if ts.len() == 0 {
        Seq::empty()
    } else {
        let prev = dedup_targets(ts.drop_last());
        let t = ts.last();
        if exists|i: int| 0 <= i < prev.len() && (#[trigger] prev[i]).0 == t.0 && prev[i].1 == t.1 {
            prev
        } else {
            prev.push(t)
        }
    }
}

fn candidate_text_exec(c: &Option<(DependencyRef, Option<String>)>) -> (r: String)
    ensures
        r@ == candidate_text(*c),
{
    match c {
        Some((r, Some(t))) => {
            let s = r.to_string();
            let a = concat(s.as_str(), " # ");
            concat(a.as_str(), t.as_str())
        },
        Some((r, None)) => r.to_string(),
        None => owned("None"),
    }
}

fn seen_before(out: &Vec<ScanTarget>, action: &str, sha: &str) -> (r: bool)
    ensures
        r == exists|i: int| 0 <= i < out@.len() && (#[trigger] target_view(out@[i])).0 == action@ && target_view(out@[i]).1 == sha@,
{
    let mut i: usize = 0;
    while i < out.len()
        invariant
            0 <= i <= out.len(),
            forall|j: int| 0 <= j < i ==> !((#[trigger] target_view(out@[j])).0 == action@ && target_view(out@[j]).1 == sha@),
        decreases out.len() - i,
    {
        if str_eq(out[i].action.0.as_str(), action) && str_eq(out[i].sha.as_str(), sha) {
            assert(target_view(out@[i as int]).0 == action@ && target_view(out@[i as int]).1 == sha@);
            return true;
        }
        i = i + 1;
    }
    false
}

fn push_target(out: &mut Vec<ScanTarget>, t: ScanTarget, Ghost(expected): Ghost<Seq<TargetView>>)
    requires
        old(out)@.map_values(|x: ScanTarget| target_view(x)) == dedup_targets(expected.drop_last()),
        expected.len() > 0,
        expected.last() == target_view(t),
    ensures
        final(out)@.map_values(|x: ScanTarget| target_view(x)) == dedup_targets(expected),
{
    let ghost before = out@.map_values(|x: ScanTarget| target_view(x));
    let seen = seen_before(out, t.action.0.as_str(), t.sha.as_str());
    proof {
        if seen {
            let i = choose|i: int| 0 <= i < out@.len() && (#[trigger] target_view(out@[i])).0 == t.action.0@ && target_view(out@[i]).1 == t.sha@;
            assert(before[i] == target_view(out@[i]));
        } else {
            assert forall|i: int| 0 <= i < before.len() implies !((#[trigger] before[i]).0 == target_view(t).0 && before[i].1 == target_view(t).1) by {
                assert(before[i] == target_view(out@[i]));
            }
        }
    }
    if !seen {
        out.push(t);
        assert(out@.map_values(|x: ScanTarget| target_view(x)) =~= before.push(target_view(t)));
    }
}

/// The references to scan: every result's reference and, when it differs,
/// its upgrade candidate (`candidates[i]` belongs to `results[i]`), each
/// (action, reference) pair once, in order of first appearance.
pub fn scan_targets(results: &Vec<UpdateResult>, candidates: &Vec<Option<(DependencyRef, Option<String>)>>) -> (r: Vec<ScanTarget>)
    requires
        candidates@.len() == results@.len(),
    ensures
        r@.map_values(|x: ScanTarget| target_view(x)) == dedup_targets(all_targets(results@, candidates@)),
{
    let mut out: Vec<ScanTarget> = Vec::new();
    let ghost mut flat: Seq<TargetView> = Seq::empty();
    let mut i: usize = 0;
    while i < results.len()
        invariant
            0 <= i <= results.len(),
            candidates@.len() == results@.len(),
            flat == all_targets(results@.take(i as int), candidates@.take(i as int)),
            out@.map_values(|x: ScanTarget| target_view(x)) == dedup_targets(flat),
        decreases results.len() - i,
    {
        let r = &results[i];
        let c = &candidates[i];
        assert(results@.take(i + 1).drop_last() =~= results@.take(i as int));
        assert(candidates@.take(i + 1).take(i as int) =~= candidates@.take(i as int));
        assert(candidates@.take(i + 1)[i as int] == candidates@[i as int]);
        let sha = r.new_sha.to_string();
        let own = ScanTarget {
            action: DependencyName(r.action.0.clone()),
            sha: sha.clone(),
            tag: copy_opt(&r.new_tag),
            candidate: candidate_text_exec(c),
        };
        let ghost f1 = flat.push(target_view(own));
        assert(f1.drop_last() =~= flat);
        push_target(&mut out, own, Ghost(f1));
        proof {
            flat = f1;
        }
        match c {
            Some((cr, ct)) => {
                let cand_sha = cr.to_string();
                if !str_eq(cand_sha.as_str(), sha.as_str()) {
                    let extra = ScanTarget {
                        action: DependencyName(r.action.0.clone()),
                        sha: cand_sha,
                        tag: copy_opt(ct),
                        candidate: owned("None"),
                    };
                    let ghost f2 = flat.push(target_view(extra));
                    assert(f2.drop_last() =~= flat);
                    push_target(&mut out, extra, Ghost(f2));
                    proof {
                        flat = f2;
                    }
                }
            },
            None => {},
        }
        assert(flat =~= all_targets(results@.take(i + 1), candidates@.take(i + 1)));
        i = i + 1;
    }
    assert(results@.take(results.len() as int) =~= results@);
    assert(candidates@.take(results.len() as int) =~= candidates@);
    out
}

// ---------------------------------------------------------------------------
// Judging a target
// ---------------------------------------------------------------------------

/// The version a target stands for: its tag, unless that is a commit SHA.
pub open spec fn tag_version(tag: Option<Seq<char>>) -> Option<Seq<char>> {
    match tag {
        Some(t) => if is_git_sha(t) {
            None
        } else {
            Some(t)
        },
        None => None,
    }
}

/// The version a target stands for (see [`tag_version`]).
pub fn target_version(target: &ScanTarget) -> (r: Option<String>)
    ensures
        opt_view(r) == tag_version(opt_view(target.tag)),
{
    match &target.tag {
        Some(t) => if is_git_sha_exec(&chars_of(t.as_str())) {
            None
        } else {
            Some(t.clone())
        },
        None => None,
    }
}

/// What a target is checked against: commits against OSV, other references
/// (image digests) by provenance, with the image name without its scheme.
/// Returns (true, reference) for OSV and (false, image) for provenance.
pub open spec fn target_check(t: TargetView) -> (bool, Seq<char>) {
    if is_git_sha(t.1) {
        (true, t.1)
    } else {
        (false, without_scheme(t.0))
    }
}

/// Whether a target's reference is a commit to look up in OSV; otherwise the
/// image whose provenance is checked.
pub fn target_lookup(target: &ScanTarget) -> (r: (bool, String))
    ensures
        (r.0, r.1@) == target_check(target_view(*target)),
{
    if is_git_sha_exec(&chars_of(target.sha.as_str())) {
        (true, target.sha.clone())
    } else {
        let a = chars_of(target.action.0.as_str());
        proof {
            reveal_strlit("docker://");
        }
        if starts_with(&a, &chars_of("docker://")) {
            let s = slice_chars(&a, 9, a.len());
            assert(s@ =~= a@.skip(9));
            (false, string_of(&s))
        } else {
            (false, target.action.0.clone())
        }
    }
}

/// Words in a vulnerability's description that mark a supply-chain attack.
pub open spec fn attack_words(text: Seq<char>) -> bool {
    contains(text, "malicious"@) || contains(text, "compromised"@) || contains(text, "backdoor"@)
        || contains(text, "malware"@) || contains(text, "hijacked"@) || contains(text, "exfiltrat"@)
}

/// A vulnerability that describes a supply-chain attack.
pub open spec fn is_attack(summary: Seq<char>, details: Seq<char>) -> bool {
    attack_words(lowercase(summary + " "@ + details))
}

/// A vulnerability describes a supply-chain attack whenever its summary and
/// details, lowercased, mention any of `malicious`, `compromised`,
/// `backdoor`, `malware`, `hijacked` or `exfiltrat`; and only then.
pub proof fn lemma_attack_words(summary: Seq<char>, details: Seq<char>)
    ensures
        ({
            let text = lowercase(summary + " "@ + details);
            is_attack(summary, details) <==> contains(text, "malicious"@) || contains(text, "compromised"@) || contains(
                text,
                "backdoor"@,
            ) || contains(text, "malware"@) || contains(text, "hijacked"@) || contains(text, "exfiltrat"@)
        }),
{
}

/// `str::to_lowercase`, applied through the scanner's wrapper.
fn lower(s: &str) -> (r: String)
    ensures
        r@ == lowercase(s@),
{
    crate::scanner::parser::to_lowercase(s)
}

/// Whether a vulnerability's summary and details describe a supply-chain
/// attack (a keyword such as `malicious` or `backdoor`, in any case).
pub fn describes_attack(summary: &str, details: &str) -> (r: bool)
    ensures
        r == is_attack(summary@, details@),
{
    let a = concat(summary, " ");
    let b = concat(a.as_str(), details);
    let l = chars_of(lower(b.as_str()).as_str());
    contains_exec(&l, &chars_of("malicious")) || contains_exec(&l, &chars_of("compromised"))
        || contains_exec(&l, &chars_of("backdoor")) || contains_exec(&l, &chars_of("malware"))
        || contains_exec(&l, &chars_of("hijacked")) || contains_exec(&l, &chars_of("exfiltrat"))
}

/// How a target is classified.
#[derive(Debug, Clone, Copy, PartialEq, Eq, Structural)]
pub enum ScanClass {
    /// No vulnerability, or a verified provenance.
    Clean,
    /// Known vulnerabilities, none of them an attack.
    Vulnerable,
    /// A supply-chain attack, or a provenance that did not verify.
    Compromised,
}

/// The class of a target from its findings (id, summary, is an attack).
pub open spec fn class_of(reasons: Seq<(Seq<char>, Seq<char>, bool)>) -> ScanClass {
    if reasons.len() == 0 {
        ScanClass::Clean
    } else if exists|i: int| 0 <= i < reasons.len() && (#[trigger] reasons[i]).2 {
        ScanClass::Compromised
    } else {
        ScanClass::Vulnerable
    }
}

/// Classifies a target by its findings (see [`class_of`]).
pub fn classify(reasons: &Vec<(String, String, bool)>) -> (r: ScanClass)
    ensures
        r == class_of(reasons@.map_values(|x: (String, String, bool)| (x.0@, x.1@, x.2))),
{
    let ghost rv = reasons@.map_values(|x: (String, String, bool)| (x.0@, x.1@, x.2));
    if reasons.len() == 0 {
        return ScanClass::Clean;
    }
    let mut i: usize = 0;
    while i < reasons.len()
        invariant
            0 <= i <= reasons.len(),
            rv == reasons@.map_values(|x: (String, String, bool)| (x.0@, x.1@, x.2)),
            forall|j: int| 0 <= j < i ==> !(#[trigger] rv[j]).2,
        decreases reasons.len() - i,
    {
        if reasons[i].2 {
            assert(rv[i as int].2);
            return ScanClass::Compromised;
        }
        i = i + 1;
    }
    ScanClass::Vulnerable
}

/// The findings of a provenance check that did not verify.
pub fn provenance_failure() -> (r: Vec<(String, String, bool)>)
    ensures
        r@.len() == 1,
        r@[0].0@ == "PROVENANCE_FAIL"@,
        r@[0].1@ == "Provenance signature verification failed"@,
        r@[0].2,
{
    let mut v: Vec<(String, String, bool)> = Vec::new();
    v.push((owned("PROVENANCE_FAIL"), owned("Provenance signature verification failed"), true));
    v
}

// ---------------------------------------------------------------------------
// Recording the verdicts
// ---------------------------------------------------------------------------

/// The vetted (or compromised) entries of the local configuration followed by
/// those of the global one that it does not list.
pub fn combine_lists(local: Option<Vec<SecurityEntry>>, global: Option<Vec<SecurityEntry>>) -> (r: Vec<SecurityEntry>)
    ensures
        r@ == merge_entries(entries_of(local), entries_of(global)),
{
    let mut list = match local {
        Some(v) => v,
        None => Vec::new(),
    };
    assert(list@ == entries_of(local));
    match global {
        Some(g) => crate::config::merge_into(&mut list, g),
        None => {
            assert(merge_entries(list@, Seq::<SecurityEntry>::empty()) == list@);
        },
    }
    list
}

/// A list entry names the reference `action@sha`, or the bare `sha`.
pub open spec fn lists_ref(list: Seq<SecurityEntry>, action: Seq<char>, sha: Seq<char>) -> bool {
    has_ref(list, action + "@"@ + sha) || has_ref(list, sha)
}

/// Whether a list already names `action@sha` (or `sha`).
pub fn already_listed(list: &Vec<SecurityEntry>, action: &str, sha: &str) -> (r: bool)
    ensures
        r == lists_ref(list@, action@, sha@),
{
    let a = concat(action, "@");
    let full = concat(a.as_str(), sha);
    let mut i: usize = 0;
    while i < list.len()
        invariant
            0 <= i <= list.len(),
            full@ == action@ + "@"@ + sha@,
            forall|j: int| 0 <= j < i ==> (#[trigger] list@[j]).reference@ != full@ && list@[j].reference@ != sha@,
        decreases list.len() - i,
    {
        let e = list[i].reference.as_str();
        if str_eq(e, full.as_str()) || str_eq(e, sha) {
            assert(list@[i as int].reference@ == full@ || list@[i as int].reference@ == sha@);
            return true;
        }
        i = i + 1;
    }
    false
}

/// The list after recording `items` (action, reference, tag) with the given
/// timestamp: each becomes `action@sha`, unless the list already names it.
pub open spec fn recorded(list: Seq<SecurityEntry>, items: Seq<(Seq<char>, Seq<char>, Option<Seq<char>>)>, ts: Seq<char>) -> Seq<(Seq<char>, Option<Seq<char>>, Option<Seq<char>>)>
    decreases items.len(),
{
    let base = list.map_values(|e: SecurityEntry| (e.reference@, opt_view(e.tag), opt_view(e.timestamp)));
    if items.len() == 0 {
        base
    } else {
        let prev = recorded(list, items.drop_last(), ts);
        let it = items.last();
        let full = it.0 + "@"@ + it.1;
        if exists|i: int| 0 <= i < prev.len() && ((#[trigger] prev[i]).0 == full || prev[i].0 == it.1) {
            prev
        } else {
            prev.push((full, it.2, Some(ts)))
        }
    }
}

pub open spec fn entry_views(list: Seq<SecurityEntry>) -> Seq<(Seq<char>, Option<Seq<char>>, Option<Seq<char>>)> {
    list.map_values(|e: SecurityEntry| (e.reference@, opt_view(e.tag), opt_view(e.timestamp)))
}

/// Records the items in the list (see [`recorded`]).
pub fn record_entries(list: &mut Vec<SecurityEntry>, items: &Vec<(String, String, Option<String>)>, timestamp: &str)
    ensures
        entry_views(final(list)@) == recorded(old(list)@, items@.map_values(|x: (String, String, Option<String>)| (x.0@, x.1@, opt_view(x.2))), timestamp@),
{
    let ghost start = list@;
    let ghost iv = items@.map_values(|x: (String, String, Option<String>)| (x.0@, x.1@, opt_view(x.2)));
    let mut i: usize = 0;
    assert(iv.take(0) =~= Seq::<(Seq<char>, Seq<char>, Option<Seq<char>>)>::empty());
    while i < items.len()
        invariant
            0 <= i <= items.len(),
            iv == items@.map_values(|x: (String, String, Option<String>)| (x.0@, x.1@, opt_view(x.2))),
            entry_views(list@) == recorded(start, iv.take(i as int), timestamp@),
        decreases items.len() - i,
    {
        let (action, sha, tag) = &items[i];
        assert(iv.take(i + 1).drop_last() =~= iv.take(i as int));
        assert(iv.take(i + 1).last() == iv[i as int]);
        let ghost prev = entry_views(list@);
        let listed = already_listed(list, action.as_str(), sha.as_str());
        proof {
            if listed {
                if has_ref(list@, action@ + "@"@ + sha@) {
                    let j = choose|j: int| 0 <= j < list@.len() && (#[trigger] list@[j]).reference@ == action@ + "@"@ + sha@;
                    assert(prev[j].0 == list@[j].reference@);
                } else {
                    let j = choose|j: int| 0 <= j < list@.len() && (#[trigger] list@[j]).reference@ == sha@;
                    assert(prev[j].0 == list@[j].reference@);
                }
            } else {
                assert forall|j: int| 0 <= j < prev.len() implies !((#[trigger] prev[j]).0 == action@ + "@"@ + sha@ || prev[j].0 == sha@) by {
                    assert(prev[j].0 == list@[j].reference@);
                    if list@[j].reference@ == action@ + "@"@ + sha@ {
                        assert(has_ref(list@, action@ + "@"@ + sha@));
                    }
                    if list@[j].reference@ == sha@ {
                        assert(has_ref(list@, sha@));
                    }
                }
            }
        }
        if !listed {
            let a = concat(action.as_str(), "@");
            let full = concat(a.as_str(), sha.as_str());
            let entry = SecurityEntry { reference: full, tag: copy_opt(tag), timestamp: Some(owned(timestamp)) };
            list.push(entry);
            assert(entry_views(list@) =~= prev.push((action@ + "@"@ + sha@, opt_view(*tag), Some(timestamp@))));
        }
        i = i + 1;
    }
    assert(iv.take(items.len() as int) =~= iv);
}

} // verus!
