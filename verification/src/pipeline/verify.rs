//! Verification: which dependencies are pinned, which are compromised or not
//! vetted, and the reports that say so.
use crate::domain::dependency::DependencyName;
use crate::domain::update::{
    is_git_sha, is_git_sha_exec, opt_view, CompromisedDependency, NonVettedDependency,
    UnpinnedDependency, UpdateTask, VerificationResult,
};
use crate::patcher::formatter::HashSecurityStatus;
use crate::style::{cyan, green_bold, magenta, painted, red, red_bold, yellow};
use crate::text::{byte_len, byte_len_is, chars_of, concat, contains, decimal, has_prefix, has_suffix, occurs_at, owned, slice_chars, starts_with, str_eq, string_of, usize_text};
use vstd::prelude::*;

verus! {

/// A dependency is pinned when its tag is a 40-character hexadecimal commit
/// SHA, a full `sha256:` digest (71 bytes), or any non-empty version of a
/// CircleCI orb (orbs are immutable).
pub open spec fn pinned(t: UpdateTask) -> bool {
    match t.current_tag {
        Some(tag) => is_git_sha(tag@) || (has_prefix(tag@, "sha256:"@) && byte_len(tag@) == 71) || (
        t.key@ == "orbs"@ && tag@.len() > 0),
        None => false,
    }
}

/// Whether a task's dependency is pinned to an immutable reference.
pub fn is_pinned(task: &UpdateTask) -> (r: bool)
    ensures
        r == pinned(*task),
{
    match &task.current_tag {
        Some(tag) => {
            let v = chars_of(tag.as_str());
            is_git_sha_exec(&v) || (starts_with(&v, &chars_of("sha256:")) && byte_len_is(
                tag.as_str(),
                71,
            )) || (str_eq(task.key.as_str(), "orbs") && v.len() > 0)
        },
        None => false,
    }
}

/// What verification concludes about one dependency.
#[derive(Debug, Clone, Copy, PartialEq, Eq, Structural)]
pub enum Verdict {
    /// Not pinned to an immutable reference.
    Unpinned,
    /// Pinned, but to a compromised reference.
    Compromised,
    /// Pinned, but not vetted while strict mode is on.
    NotVetted,
    /// Pinned and acceptable.
    Clean,
}

/// The verdict on a task, given the security status of its reference.
pub open spec fn verdict_of(t: UpdateTask, status: HashSecurityStatus, strict: bool) -> Verdict {
    if !pinned(t) {
        Verdict::Unpinned
    } else {
        match status {
            HashSecurityStatus::Compromised => Verdict::Compromised,
            HashSecurityStatus::NotChecked => if strict {
                Verdict::NotVetted
            } else {
                Verdict::Clean
            },
            HashSecurityStatus::Vetted => Verdict::Clean,
        }
    }
}

/// The verdict on a task (see [`verdict_of`]).
pub fn verdict(task: &UpdateTask, status: HashSecurityStatus, strict: bool) -> (r: Verdict)
    ensures
        r == verdict_of(*task, status, strict),
{
    if !is_pinned(task) {
        Verdict::Unpinned
    } else {
        match status {
            HashSecurityStatus::Compromised => Verdict::Compromised,
            HashSecurityStatus::NotChecked => if strict {
                Verdict::NotVetted
            } else {
                Verdict::Clean
            },
            HashSecurityStatus::Vetted => Verdict::Clean,
        }
    }
}

/// A check of a pinned reference that the lists do not settle.
#[derive(Debug, Clone, PartialEq, Eq)]
pub enum SecurityCheck {
    /// Verify the signed provenance of an image digest.
    Provenance { image: String, digest: String },
    /// Ask the OSV database about a commit.
    Vulnerabilities { commit: String },
}

/// The name with one leading `docker://` removed.
pub open spec fn without_scheme(a: Seq<char>) -> Seq<char> {
    if has_prefix(a, "docker://"@) {
        a.skip("docker://"@.len() as int)
    } else {
        a
    }
}

/// With the OSV check on, a pinned reference that the lists do not settle is
/// checked: a commit against OSV, anything else (an image digest) by its
/// provenance. Returns (kind, name, reference): kind 0 for provenance, 1 for
/// OSV.
pub open spec fn check_for(t: UpdateTask, status: HashSecurityStatus, check_osv: bool) -> Option<(int, Seq<char>, Seq<char>)> {
    if pinned(t) && status == HashSecurityStatus::NotChecked && check_osv {
        let tag = t.current_tag->0@;
        if is_git_sha(tag) {
            Some((1, Seq::empty(), tag))
        } else {
            Some((0, without_scheme(t.action.0@), tag))
        }
    } else {
        None
    }
}

pub open spec fn check_view(c: Option<SecurityCheck>) -> Option<(int, Seq<char>, Seq<char>)> {
    match c {
        Some(SecurityCheck::Provenance { image, digest }) => Some((0, image@, digest@)),
        Some(SecurityCheck::Vulnerabilities { commit }) => Some((1, Seq::empty(), commit@)),
        None => None,
    }
}

/// The check a task needs, if any (see [`check_for`]).
pub fn security_check(task: &UpdateTask, status: HashSecurityStatus, check_osv: bool) -> (r: Option<SecurityCheck>)
    ensures
        check_view(r) == check_for(*task, status, check_osv),
{
    if !(is_pinned(task) && status == HashSecurityStatus::NotChecked && check_osv) {
        return None;
    }
    let tag = match &task.current_tag {
        Some(t) => t,
        None => return None,
    };
    if is_git_sha_exec(&chars_of(tag.as_str())) {
        Some(SecurityCheck::Vulnerabilities { commit: tag.clone() })
    } else {
        let a = chars_of(task.action.0.as_str());
        proof {
            reveal_strlit("docker://");
        }
        let image = if starts_with(&a, &chars_of("docker://")) {
            let s = slice_chars(&a, 9, a.len());
            assert(s@ =~= a@.skip(9));
            string_of(&s)
        } else {
            task.action.0.clone()
        };
        Some(SecurityCheck::Provenance { image, digest: tag.clone() })
    }
}

/// What a check found.
#[derive(Debug, Clone, Copy, PartialEq, Eq, Structural)]
pub enum CheckOutcome {
    /// The provenance signature verified.
    Verified,
    /// The provenance signature did not verify.
    Rejected,
    /// The check could not be made.
    Unavailable,
    /// OSV answered; `true` when it lists vulnerabilities for the commit.
    Vulnerable(bool),
}

/// The status after a check: a rejected provenance or a vulnerable commit is
/// compromised; anything else leaves the status as it was.
pub open spec fn status_after_check(status: HashSecurityStatus, outcome: CheckOutcome) -> HashSecurityStatus {
    match outcome {
        CheckOutcome::Rejected => HashSecurityStatus::Compromised,
        CheckOutcome::Vulnerable(true) => HashSecurityStatus::Compromised,
        _ => status,
    }
}

/// Applies the outcome of a check to a status (see [`status_after_check`]).
pub fn apply_check(status: HashSecurityStatus, outcome: CheckOutcome) -> (r: HashSecurityStatus)
    ensures
        r == status_after_check(status, outcome),
{
    match outcome {
        CheckOutcome::Rejected => HashSecurityStatus::Compromised,
        CheckOutcome::Vulnerable(true) => HashSecurityStatus::Compromised,
        _ => status,
    }
}

// ---------------------------------------------------------------------------
// Findings
// ---------------------------------------------------------------------------

/// The unpinned dependency a task reports.
pub open spec fn unpinned_of(t: UpdateTask) -> UnpinnedDependency {
    UnpinnedDependency { path: t.path, action: t.action, tag: t.current_tag, line: t.line, column: t.column }
}

/// The compromised dependency a task reports.
pub open spec fn compromised_of(t: UpdateTask) -> CompromisedDependency {
    CompromisedDependency { path: t.path, action: t.action, hash: t.current_tag->0, line: t.line, column: t.column }
}

/// The non-vetted dependency a task reports.
pub open spec fn non_vetted_of(t: UpdateTask) -> NonVettedDependency {
    NonVettedDependency { path: t.path, action: t.action, tag: t.current_tag, line: t.line, column: t.column }
}

/// The findings of verification, in task order: every unpinned task, every
/// compromised one, and (in strict mode) every pinned one that is not vetted.
pub open spec fn findings(ts: Seq<UpdateTask>, ss: Seq<HashSecurityStatus>, strict: bool) -> (
    Seq<UnpinnedDependency>,
    Seq<CompromisedDependency>,
    Seq<NonVettedDependency>,
)
    decreases ts.len(),
{
    if ts.len() == 0 {
        (Seq::empty(), Seq::empty(), Seq::empty())
    } else {
        let prev = findings(ts.drop_last(), ss.take(ts.len() - 1), strict);
        let t = ts.last();
        match verdict_of(t, ss[ts.len() - 1], strict) {
            Verdict::Unpinned => (prev.0.push(unpinned_of(t)), prev.1, prev.2),
            Verdict::Compromised => (prev.0, prev.1.push(compromised_of(t)), prev.2),
            Verdict::NotVetted => (prev.0, prev.1, prev.2.push(non_vetted_of(t))),
            Verdict::Clean => prev,
        }
    }
}

/// The unpinned dependencies are reported in order, each once: exactly the
/// tasks that are not pinned, whatever their security status.
pub proof fn lemma_unpinned_in_order(ts: Seq<UpdateTask>, ss: Seq<HashSecurityStatus>, strict: bool)
    requires
        ss.len() == ts.len(),
    ensures
        findings(ts, ss, strict).0 == ts.filter(|t: UpdateTask| !pinned(t)).map_values(|t: UpdateTask| unpinned_of(t)),
    decreases ts.len(),
{
    reveal_with_fuel(Seq::filter, 1);
    if ts.len() > 0 {
        let init = ts.drop_last();
        assert(ss.take(ts.len() - 1).len() == init.len());
        lemma_unpinned_in_order(init, ss.take(ts.len() - 1), strict);
        let fi = init.filter(|t: UpdateTask| !pinned(t));
        assert(ts.filter(|t: UpdateTask| !pinned(t)) == if !pinned(ts.last()) {
            fi.push(ts.last())
        } else {
            fi
        });
        if !pinned(ts.last()) {
            assert(fi.push(ts.last()).map_values(|t: UpdateTask| unpinned_of(t)) =~= fi.map_values(
                |t: UpdateTask| unpinned_of(t),
            ).push(unpinned_of(ts.last())));
        }
    }
}

/// Without strict mode no dependency is reported as not vetted.
pub proof fn lemma_lenient_vets_all(ts: Seq<UpdateTask>, ss: Seq<HashSecurityStatus>)
    requires
        ss.len() == ts.len(),
    ensures
        findings(ts, ss, false).2.len() == 0,
    decreases ts.len(),
{
    if ts.len() > 0 {
        lemma_lenient_vets_all(ts.drop_last(), ss.take(ts.len() - 1));
    }
}

/// Verification finds nothing exactly when every dependency's verdict is
/// clean: pinned, not compromised, and, in strict mode, vetted.
pub proof fn lemma_verification_passes_iff_clean(ts: Seq<UpdateTask>, ss: Seq<HashSecurityStatus>, strict: bool)
    requires
        ss.len() == ts.len(),
    ensures
        ({
            let f = findings(ts, ss, strict);
            f.0.len() == 0 && f.1.len() == 0 && f.2.len() == 0
        }) <==> (forall|i: int| 0 <= i < ts.len() ==> #[trigger] verdict_of(ts[i], ss[i], strict) == Verdict::Clean),
    decreases ts.len(),
{
    if ts.len() > 0 {
        let n = ts.len() - 1;
        lemma_verification_passes_iff_clean(ts.drop_last(), ss.take(n), strict);
        assert forall|i: int| 0 <= i < n implies (ts.drop_last()[i] == ts[i] && #[trigger] ss.take(n)[i] == ss[i]) by {}
        if forall|i: int| 0 <= i < ts.len() ==> #[trigger] verdict_of(ts[i], ss[i], strict) == Verdict::Clean {
            assert(verdict_of(ts[n], ss[n], strict) == Verdict::Clean);
            assert forall|i: int| 0 <= i < n implies #[trigger] verdict_of(ts.drop_last()[i], ss.take(n)[i], strict) == Verdict::Clean by {
                assert(verdict_of(ts[i], ss[i], strict) == Verdict::Clean);
            }
        } else {
            let k = choose|k: int| 0 <= k < ts.len() && #[trigger] verdict_of(ts[k], ss[k], strict) != Verdict::Clean;
            if k < n {
                assert(verdict_of(ts.drop_last()[k], ss.take(n)[k], strict) != Verdict::Clean);
            }
        }
    }
}

fn copy_opt(o: &Option<String>) -> (r: Option<String>)
    ensures
        r == *o,
{
    match o {
        Some(s) => Some(s.clone()),
        None => None,
    }
}

/// Collects the findings of verification (see [`findings`]); `statuses[i]`
/// is the security status of the reference of `tasks[i]` after any checks.
pub fn collect_findings(tasks: &Vec<UpdateTask>, statuses: &Vec<HashSecurityStatus>, strict: bool) -> (r: VerificationResult)
    requires
        statuses@.len() == tasks@.len(),
    ensures
        (r.unpinned@, r.compromised@, r.non_vetted@) == findings(tasks@, statuses@, strict),
{
    let mut unpinned: Vec<UnpinnedDependency> = Vec::new();
    let mut compromised: Vec<CompromisedDependency> = Vec::new();
    let mut non_vetted: Vec<NonVettedDependency> = Vec::new();
    let mut i: usize = 0;
    while i < tasks.len()
        invariant
            0 <= i <= tasks.len(),
            statuses@.len() == tasks@.len(),
            (unpinned@, compromised@, non_vetted@) == findings(tasks@.take(i as int), statuses@.take(i as int), strict),
        decreases tasks.len() - i,
    {
        let t = &tasks[i];
        assert(tasks@.take(i + 1).drop_last() =~= tasks@.take(i as int));
        assert(statuses@.take(i + 1).take(i as int) =~= statuses@.take(i as int));
        assert(tasks@.take(i + 1).last() == tasks@[i as int]);
        assert(statuses@.take(i + 1)[i as int] == statuses@[i as int]);
        let action = DependencyName(t.action.0.clone());
        match verdict(t, statuses[i], strict) {
            Verdict::Unpinned => {
                unpinned.push(UnpinnedDependency { path: t.path.clone(), action, tag: copy_opt(&t.current_tag), line: t.line, column: t.column });
            },
            Verdict::Compromised => {
                let hash = match &t.current_tag {
                    Some(h) => h.clone(),
                    None => String::new(),
                };
                compromised.push(CompromisedDependency { path: t.path.clone(), action, hash, line: t.line, column: t.column });
            },
            Verdict::NotVetted => {
                non_vetted.push(NonVettedDependency { path: t.path.clone(), action, tag: copy_opt(&t.current_tag), line: t.line, column: t.column });
            },
            Verdict::Clean => {},
        }
        i = i + 1;
    }
    assert(tasks@.take(tasks.len() as int) =~= tasks@);
    assert(statuses@.take(tasks.len() as int) =~= statuses@);
    VerificationResult { unpinned, compromised, non_vetted }
}

// ---------------------------------------------------------------------------
// Reports
// ---------------------------------------------------------------------------

/// The tag shown for a task: its tag, or `latest`.
pub open spec fn shown_tag(t: UpdateTask) -> Seq<char> {
    match t.current_tag {
        Some(x) => x@,
        None => "latest"@,
    }
}

/// The `file=..,line=..,col=..` location of a GitHub annotation.
pub open spec fn location(t: UpdateTask) -> Seq<char> {
    "::error file="@ + t.path@ + ",line="@ + decimal(t.line as nat) + ",col="@ + decimal(t.column as nat)
}

/// The GitHub Actions annotation for a failing verdict.
pub open spec fn github_annotation_of(t: UpdateTask, v: Verdict) -> Option<Seq<char>> {
    match v {
        Verdict::Unpinned => Some(location(t) + "::Dependency "@ + t.action.0@ + " is not pinned to a SHA (found tag: "@ + shown_tag(t) + ")"@),
        Verdict::Compromised => Some(location(t) + "::Dependency "@ + t.action.0@ + "@"@ + shown_tag(t) + " is COMPROMISED (Supply Chain Attack)!"@),
        Verdict::NotVetted => Some(location(t) + "::Dependency "@ + t.action.0@ + "@"@ + shown_tag(t) + " is pinned but not vetted (strict mode enabled)"@),
        Verdict::Clean => None,
    }
}

fn join(parts: &Vec<&str>) -> (r: String)
    ensures
        r@ == parts@.fold_left(Seq::<char>::empty(), |acc: Seq<char>, p: &str| acc + p@),
{
    let mut out = String::new();
    let mut i: usize = 0;
    while i < parts.len()
        invariant
            0 <= i <= parts.len(),
            out@ == parts@.take(i as int).fold_left(Seq::<char>::empty(), |acc: Seq<char>, p: &str| acc + p@),
        decreases parts.len() - i,
    {
        assert(parts@.take(i + 1).drop_last() =~= parts@.take(i as int));
        out = concat(out.as_str(), parts[i]);
        i = i + 1;
    }
    assert(parts@.take(parts.len() as int) =~= parts@);
    out
}

fn shown_tag_exec(t: &UpdateTask) -> (r: String)
    ensures
        r@ == shown_tag(*t),
{
    match &t.current_tag {
        Some(x) => x.clone(),
        None => owned("latest"),
    }
}

fn location_exec(t: &UpdateTask) -> (r: String)
    ensures
        r@ == location(*t),
{
    let line = usize_text(t.line);
    let col = usize_text(t.column);
    let a = concat("::error file=", t.path.as_str());
    let b = concat(a.as_str(), ",line=");
    let c = concat(b.as_str(), line.as_str());
    let d = concat(c.as_str(), ",col=");
    concat(d.as_str(), col.as_str())
}

/// The GitHub Actions annotation for a verdict (see [`github_annotation_of`]).
pub fn github_annotation(task: &UpdateTask, v: Verdict) -> (r: Option<String>)
    ensures
        opt_view(r) == github_annotation_of(*task, v),
{
    let loc = location_exec(task);
    let tag = shown_tag_exec(task);
    let head = concat(loc.as_str(), "::Dependency ");
    let named = concat(head.as_str(), task.action.0.as_str());
    match v {
        Verdict::Unpinned => {
            let a = concat(named.as_str(), " is not pinned to a SHA (found tag: ");
            let b = concat(a.as_str(), tag.as_str());
            Some(concat(b.as_str(), ")"))
        },
        Verdict::Compromised => {
            let a = concat(named.as_str(), "@");
            let b = concat(a.as_str(), tag.as_str());
            Some(concat(b.as_str(), " is COMPROMISED (Supply Chain Attack)!"))
        },
        Verdict::NotVetted => {
            let a = concat(named.as_str(), "@");
            let b = concat(a.as_str(), tag.as_str());
            Some(concat(b.as_str(), " is pinned but not vetted (strict mode enabled)"))
        },
        Verdict::Clean => None,
    }
}

/// The JUnit `<testcase>` element for one dependency: it holds a
/// `<failure>` child unless the dependency is clean.
pub open spec fn junit_case_of(t: UpdateTask, v: Verdict) -> Seq<char> {
    let head = "    <testcase name=\""@ + t.action.0@ + "\" classname=\""@ + t.path@ + "\" time=\"0.0\""@;
    let at = " in "@ + t.path@ + ":"@ + decimal(t.line as nat) + ":"@ + decimal(t.column as nat);
    match v {
        Verdict::Unpinned => head + ">\n      <failure message=\"Dependency is not pinned\">Dependency "@ + t.action.0@ + " is not pinned to a SHA (found tag: "@ + shown_tag(t) + ")"@ + at + "</failure>\n    </testcase>"@,
        Verdict::Compromised => head + ">\n      <failure message=\"Dependency is compromised\">Dependency "@ + t.action.0@ + "@"@ + shown_tag(t) + " is COMPROMISED (Supply Chain Attack)!"@ + at + "</failure>\n    </testcase>"@,
        Verdict::NotVetted => head + ">\n      <failure message=\"Dependency is not vetted\">Dependency "@ + t.action.0@ + "@"@ + shown_tag(t) + " is pinned but not vetted"@ + at + "</failure>\n    </testcase>"@,
        Verdict::Clean => head + "/>"@,
    }
}

proof fn lemma_occurs_in_concat(a: Seq<char>, b: Seq<char>, c: Seq<char>, p: Seq<char>, i: int)
    requires
        occurs_at(b, p, i),
    ensures
        contains(a + b + c, p),
{
    assert((a + b + c).subrange(a.len() + i, a.len() + i + p.len()) =~= b.subrange(i, i + p.len()));
    assert(occurs_at(a + b + c, p, a.len() + i));
}

proof fn lemma_ends_with(a: Seq<char>, q: Seq<char>)
    ensures
        has_suffix(a + q, q),
{
    assert((a + q).skip((a + q).len() - q.len()) =~= q);
}

/// A JUnit test case reports a failure exactly for a dependency that fails
/// verification: a clean one is an empty element (ending in `/>`); any
/// other holds a `<failure>` child, whose message names the reason, and is
/// closed by `</failure>` and `</testcase>`. A compromised dependency's
/// failure says it is compromised by a supply-chain attack.
pub proof fn lemma_junit_failure_unless_clean(t: UpdateTask, v: Verdict)
    ensures
        v == Verdict::Clean ==> has_suffix(junit_case_of(t, v), "/>"@),
        v != Verdict::Clean ==> contains(junit_case_of(t, v), "<failure message=\""@) && has_suffix(
            junit_case_of(t, v),
            "</failure>\n    </testcase>"@,
        ),
        v == Verdict::Unpinned ==> contains(junit_case_of(t, v), "<failure message=\"Dependency is not pinned\">"@),
        v == Verdict::Compromised ==> contains(junit_case_of(t, v), "<failure message=\"Dependency is compromised\">"@)
            && contains(junit_case_of(t, v), " is COMPROMISED (Supply Chain Attack)!"@),
        v == Verdict::NotVetted ==> contains(junit_case_of(t, v), "<failure message=\"Dependency is not vetted\">"@),
{
    let head = "    <testcase name=\""@ + t.action.0@ + "\" classname=\""@ + t.path@ + "\" time=\"0.0\""@;
    let at = " in "@ + t.path@ + ":"@ + decimal(t.line as nat) + ":"@ + decimal(t.column as nat);
    let s = junit_case_of(t, v);
    let close = "</failure>\n    </testcase>"@;
    let gen = "<failure message=\""@;
    reveal_strlit("</failure>\n    </testcase>");
    reveal_strlit("<failure message=\"");
    reveal_strlit("/>");
    match v {
        Verdict::Clean => {
            lemma_ends_with(head, "/>"@);
        },
        Verdict::Unpinned => {
            let l1 = ">\n      <failure message=\"Dependency is not pinned\">Dependency "@;
            let p = "<failure message=\"Dependency is not pinned\">"@;
            reveal_strlit(">\n      <failure message=\"Dependency is not pinned\">Dependency ");
            reveal_strlit("<failure message=\"Dependency is not pinned\">");
            let rest = t.action.0@ + " is not pinned to a SHA (found tag: "@ + shown_tag(t) + ")"@ + at + close;
            assert(s =~= head + l1 + rest);
            assert(l1.subrange(8, 8 + p.len() as int) =~= p);
            lemma_occurs_in_concat(head, l1, rest, p, 8);
            assert(l1.subrange(8, 8 + gen.len() as int) =~= gen);
            lemma_occurs_in_concat(head, l1, rest, gen, 8);
            let front = head + l1 + t.action.0@ + " is not pinned to a SHA (found tag: "@ + shown_tag(t) + ")"@ + at;
            assert(s =~= front + close);
            lemma_ends_with(front, close);
        },
        Verdict::Compromised => {
            let l1 = ">\n      <failure message=\"Dependency is compromised\">Dependency "@;
            let p = "<failure message=\"Dependency is compromised\">"@;
            let l2 = " is COMPROMISED (Supply Chain Attack)!"@;
            reveal_strlit(">\n      <failure message=\"Dependency is compromised\">Dependency ");
            reveal_strlit("<failure message=\"Dependency is compromised\">");
            let rest = t.action.0@ + "@"@ + shown_tag(t) + l2 + at + close;
            assert(s =~= head + l1 + rest);
            assert(l1.subrange(8, 8 + p.len() as int) =~= p);
            lemma_occurs_in_concat(head, l1, rest, p, 8);
            assert(l1.subrange(8, 8 + gen.len() as int) =~= gen);
            lemma_occurs_in_concat(head, l1, rest, gen, 8);
            let a2 = head + l1 + t.action.0@ + "@"@ + shown_tag(t);
            assert(s =~= a2 + l2 + (at + close));
            assert(l2.subrange(0, l2.len() as int) =~= l2);
            lemma_occurs_in_concat(a2, l2, at + close, l2, 0);
            let front = head + l1 + t.action.0@ + "@"@ + shown_tag(t) + l2 + at;
            assert(s =~= front + close);
            lemma_ends_with(front, close);
        },
        Verdict::NotVetted => {
            let l1 = ">\n      <failure message=\"Dependency is not vetted\">Dependency "@;
            let p = "<failure message=\"Dependency is not vetted\">"@;
            reveal_strlit(">\n      <failure message=\"Dependency is not vetted\">Dependency ");
            reveal_strlit("<failure message=\"Dependency is not vetted\">");
            let rest = t.action.0@ + "@"@ + shown_tag(t) + " is pinned but not vetted"@ + at + close;
            assert(s =~= head + l1 + rest);
            assert(l1.subrange(8, 8 + p.len() as int) =~= p);
            lemma_occurs_in_concat(head, l1, rest, p, 8);
            assert(l1.subrange(8, 8 + gen.len() as int) =~= gen);
            lemma_occurs_in_concat(head, l1, rest, gen, 8);
            let front = head + l1 + t.action.0@ + "@"@ + shown_tag(t) + " is pinned but not vetted"@ + at;
            assert(s =~= front + close);
            lemma_ends_with(front, close);
        },
    }
}

/// The JUnit test case of a verdict (see [`junit_case_of`]).
pub fn junit_case(task: &UpdateTask, v: Verdict) -> (r: String)
    ensures
        r@ == junit_case_of(*task, v),
{
    let tag = shown_tag_exec(task);
    let line = usize_text(task.line);
    let col = usize_text(task.column);
    let h1 = concat("    <testcase name=\"", task.action.0.as_str());
    let h2 = concat(h1.as_str(), "\" classname=\"");
    let h3 = concat(h2.as_str(), task.path.as_str());
    let head = concat(h3.as_str(), "\" time=\"0.0\"");
    let a1 = concat(" in ", task.path.as_str());
    let a2 = concat(a1.as_str(), ":");
    let a3 = concat(a2.as_str(), line.as_str());
    let a4 = concat(a3.as_str(), ":");
    let at = concat(a4.as_str(), col.as_str());
    let body = match v {
        Verdict::Unpinned => {
            let b1 = concat(">\n      <failure message=\"Dependency is not pinned\">Dependency ", task.action.0.as_str());
            let b2 = concat(b1.as_str(), " is not pinned to a SHA (found tag: ");
            let b3 = concat(b2.as_str(), tag.as_str());
            let b4 = concat(b3.as_str(), ")");
            let b5 = concat(b4.as_str(), at.as_str());
            concat(b5.as_str(), "</failure>\n    </testcase>")
        },
        Verdict::Compromised => {
            let b1 = concat(">\n      <failure message=\"Dependency is compromised\">Dependency ", task.action.0.as_str());
            let b2 = concat(b1.as_str(), "@");
            let b3 = concat(b2.as_str(), tag.as_str());
            let b4 = concat(b3.as_str(), " is COMPROMISED (Supply Chain Attack)!");
            let b5 = concat(b4.as_str(), at.as_str());
            concat(b5.as_str(), "</failure>\n    </testcase>")
        },
        Verdict::NotVetted => {
            let b1 = concat(">\n      <failure message=\"Dependency is not vetted\">Dependency ", task.action.0.as_str());
            let b2 = concat(b1.as_str(), "@");
            let b3 = concat(b2.as_str(), tag.as_str());
            let b4 = concat(b3.as_str(), " is pinned but not vetted");
            let b5 = concat(b4.as_str(), at.as_str());
            concat(b5.as_str(), "</failure>\n    </testcase>")
        },
        Verdict::Clean => owned("/>"),
    };
    let r = concat(head.as_str(), body.as_str());
    assert(r@ =~= junit_case_of(*task, v));
    r
}

/// The JUnit report: the cases, with the number of tests and failures.
pub open spec fn junit_document(cases: Seq<Seq<char>>, failures: nat) -> Seq<char> {
    let n = decimal(cases.len());
    let f = decimal(failures);
    "<?xml version=\"1.0\" encoding=\"UTF-8\"?>\n"@ + "<testsuites name=\"Pinner Verification\" tests=\""@ + n + "\" failures=\""@ + f + "\" errors=\"0\" time=\"0.0\">\n"@ + "  <testsuite name=\"pinner.verify\" tests=\""@ + n + "\" failures=\""@ + f + "\" errors=\"0\" time=\"0.0\">\n"@ + cases.fold_left(Seq::<char>::empty(), |acc: Seq<char>, c: Seq<char>| acc + c + "\n"@) + "  </testsuite>\n"@ + "</testsuites>\n"@
}

/// Writes the JUnit report of the given cases (see [`junit_document`]).
pub fn junit_report(cases: &Vec<String>, failures: usize) -> (r: String)
    ensures
        r@ == junit_document(cases@.map_values(|c: String| c@), failures as nat),
{
    let ghost cv = cases@.map_values(|c: String| c@);
    let n = usize_text(cases.len());
    let f = usize_text(failures);
    let mut body = String::new();
    let mut i: usize = 0;
    while i < cases.len()
        invariant
            0 <= i <= cases.len(),
            cv == cases@.map_values(|c: String| c@),
            body@ == cv.take(i as int).fold_left(Seq::<char>::empty(), |acc: Seq<char>, c: Seq<char>| acc + c + "\n"@),
        decreases cases.len() - i,
    {
        assert(cv.take(i + 1).drop_last() =~= cv.take(i as int));
        assert(cv.take(i + 1).last() == cases@[i as int]@);
        let a = concat(body.as_str(), cases[i].as_str());
        body = concat(a.as_str(), "\n");
        i = i + 1;
    }
    assert(cv.take(cases.len() as int) =~= cv);
    assert(cv.len() == cases.len());
    let head = join(&vec![
        "<?xml version=\"1.0\" encoding=\"UTF-8\"?>\n",
        "<testsuites name=\"Pinner Verification\" tests=\"",
        n.as_str(),
        "\" failures=\"",
        f.as_str(),
        "\" errors=\"0\" time=\"0.0\">\n",
        "  <testsuite name=\"pinner.verify\" tests=\"",
        n.as_str(),
        "\" failures=\"",
        f.as_str(),
        "\" errors=\"0\" time=\"0.0\">\n",
    ]);
    proof {
        reveal_with_fuel(Seq::fold_left, 12);
    }
    let a = concat(head.as_str(), body.as_str());
    let b = concat(a.as_str(), "  </testsuite>\n");
    concat(b.as_str(), "</testsuites>\n")
}

// ---------------------------------------------------------------------------
// Console report
// ---------------------------------------------------------------------------

/// The console line of a failing verdict, from its painted pieces: the
/// cross, the action, the tag, the path, the line and the column.
pub open spec fn text_line_of(v: Verdict, x: Seq<char>, a: Seq<char>, t: Seq<char>, p: Seq<char>, l: Seq<char>, c: Seq<char>) -> Seq<char> {
    "  "@ + x + " "@ + a + "@"@ + t + " in "@ + p + ":"@ + l + ":"@ + c + match v {
        Verdict::Unpinned => " [✗ unpinned]"@,
        Verdict::Compromised => " [✗ compromised]"@,
        _ => " [✗ not vetted]"@,
    }
}

/// The pieces of a console line are painted: the cross bold red, the action
/// yellow, the tag red (compromised) or yellow, the path cyan, the line and
/// column magenta.
pub open spec fn text_pieces_fit(t: UpdateTask, v: Verdict, x: Seq<char>, a: Seq<char>, tg: Seq<char>, p: Seq<char>, l: Seq<char>, c: Seq<char>) -> bool {
    &&& painted("✗"@, "1;31"@, x)
    &&& painted(t.action.0@, "33"@, a)
    &&& painted(shown_tag(t), if v == Verdict::Compromised {
        "31"@
    } else {
        "33"@
    }, tg)
    &&& painted(t.path@, "36"@, p)
    &&& painted(decimal(t.line as nat), "35"@, l)
    &&& painted(decimal(t.column as nat), "35"@, c)
}

/// The console line of a dependency that fails verification (none for a
/// clean one; see [`text_line_of`]).
pub fn text_line(task: &UpdateTask, v: Verdict) -> (r: Option<String>)
    ensures
        v == Verdict::Clean ==> r is None,
        v != Verdict::Clean ==> (r matches Some(s) && exists|x: Seq<char>, a: Seq<char>, tg: Seq<char>, p: Seq<char>, l: Seq<char>, c: Seq<char>|
            #![trigger text_line_of(v, x, a, tg, p, l, c)]
            text_pieces_fit(*task, v, x, a, tg, p, l, c) && s@ == text_line_of(v, x, a, tg, p, l, c)),
{
    if v == Verdict::Clean {
        return None;
    }
    let shown = match &task.current_tag {
        Some(t) => t.clone(),
        None => owned("latest"),
    };
    let x = red_bold("✗");
    let a = yellow(task.action.0.as_str());
    let tg = if v == Verdict::Compromised {
        red(shown.as_str())
    } else {
        yellow(shown.as_str())
    };
    let p = cyan(task.path.as_str());
    let l = magenta(usize_text(task.line).as_str());
    let c = magenta(usize_text(task.column).as_str());
    let s1 = concat("  ", x.as_str());
    let s2 = concat(s1.as_str(), " ");
    let s3 = concat(s2.as_str(), a.as_str());
    let s4 = concat(s3.as_str(), "@");
    let s5 = concat(s4.as_str(), tg.as_str());
    let s6 = concat(s5.as_str(), " in ");
    let s7 = concat(s6.as_str(), p.as_str());
    let s8 = concat(s7.as_str(), ":");
    let s9 = concat(s8.as_str(), l.as_str());
    let s10 = concat(s9.as_str(), ":");
    let s11 = concat(s10.as_str(), c.as_str());
    let suffix = match v {
        Verdict::Unpinned => " [✗ unpinned]",
        Verdict::Compromised => " [✗ compromised]",
        _ => " [✗ not vetted]",
    };
    let s = concat(s11.as_str(), suffix);
    assert(s@ == text_line_of(v, x@, a@, tg@, p@, l@, c@));
    Some(s)
}

/// The closing line of a console report.
pub open spec fn summary_text(success: bool, mark: Seq<char>) -> Seq<char> {
    if success {
        "\n"@ + mark + " Verification successful! All dependencies are pinned and secure."@
    } else {
        "\n"@ + mark + " Verification failed! Some dependencies are not pinned, are compromised, or are not vetted."@
    }
}

/// The closing line of a console report, with a bold green tick or a bold
/// red cross (see [`summary_text`]).
pub fn summary_line(success: bool) -> (r: String)
    ensures
        exists|mark: Seq<char>|
            #![trigger summary_text(success, mark)]
            (if success {
                painted("✔"@, "1;32"@, mark)
            } else {
                painted("✗"@, "1;31"@, mark)
            }) && r@ == summary_text(success, mark),
{
    if success {
        let m = green_bold("✔");
        let a = concat("\n", m.as_str());
        let r = concat(a.as_str(), " Verification successful! All dependencies are pinned and secure.");
        assert(r@ == summary_text(success, m@));
        r
    } else {
        let m = red_bold("✗");
        let a = concat("\n", m.as_str());
        let r = concat(a.as_str(), " Verification failed! Some dependencies are not pinned, are compromised, or are not vetted.");
        assert(r@ == summary_text(success, m@));
        r
    }
}

} // verus!
