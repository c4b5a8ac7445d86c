//! The findings of a security scan: which dependency falls in which class,
//! which ones the configuration does not list yet, what the user picked to
//! record, and the report that lists them.
use crate::config::SecurityEntry;
use crate::domain::update::opt_view;
use crate::error::PinnerError;
use crate::pipeline::scan::{
    already_listed, class_of, classify, describes_attack, is_attack, lemma_attack_words, lists_ref, provenance_failure,
    tag_version, target_version, ScanClass, ScanTarget,
};
use crate::style::{cyan, cyan_bold, green_bold, magenta, painted, red, red_bold, yellow, yellow_bold};
use crate::scanner::parser::lowercase;
use crate::text::{concat, contains, owned};
use vstd::prelude::*;

verus! {

/// A scanned dependency and what was found of it.
pub struct Finding {
    /// The action or image.
    pub action: String,
    /// The pinned commit or digest that was checked.
    pub sha: String,
    /// The upgrade candidate, as shown (`None` where there is none).
    pub candidate: String,
    /// The version the pin stands for, where known.
    pub version: Option<String>,
    /// What was found: identifier, summary, and whether it is an attack.
    pub reasons: Vec<(String, String, bool)>,
}

/// What checking a scan target came to: the vulnerabilities OSV lists for a
/// commit (identifier, summary, details; `None` when no usable answer came),
/// or the provenance check of an image.
pub enum TargetCheck {
    Osv(Option<Vec<(String, String, String)>>),
    Provenance(Result<bool, PinnerError>),
}

/// The reasons of OSV records: each record's identifier and summary, and
/// whether it describes an attack (see [`is_attack`]).
pub open spec fn osv_reasons(v: Seq<(String, String, String)>) -> Seq<(Seq<char>, Seq<char>, bool)> {
    v.map_values(|x: (String, String, String)| (x.0@, x.1@, is_attack(x.1@, x.2@)))
}

/// A dependency one of whose OSV records mentions, in any case, one of the
/// attack words (`malicious`, `compromised`, `backdoor`, `malware`,
/// `hijacked`, `exfiltrat`) is classified as compromised.
pub proof fn lemma_attack_record_compromises(v: Seq<(String, String, String)>, i: int)
    requires
        0 <= i < v.len(),
        ({
            let text = lowercase(v[i].1@ + " "@ + v[i].2@);
            contains(text, "malicious"@) || contains(text, "compromised"@) || contains(text, "backdoor"@) || contains(
                text,
                "malware"@,
            ) || contains(text, "hijacked"@) || contains(text, "exfiltrat"@)
        }),
    ensures
        class_of(osv_reasons(v)) == ScanClass::Compromised,
{
    lemma_attack_words(v[i].1@, v[i].2@);
    let rs = osv_reasons(v);
    assert(rs[i].2);
}

/// The finding of a checked target: its action, reference, candidate and
/// version, with the reasons found: those of OSV's records (none without an
/// answer), none for a verified provenance, one provenance failure for a
/// rejected one. A provenance check that failed leaves the target out.
pub fn scan_finding(target: &ScanTarget, check: TargetCheck) -> (r: Option<Finding>)
    ensures
        (check matches TargetCheck::Provenance(Err(_))) <==> r is None,
        r matches Some(f) ==> {
            &&& f.action@ == target.action.0@
            &&& f.sha@ == target.sha@
            &&& f.candidate@ == target.candidate@
            &&& opt_view(f.version) == tag_version(opt_view(target.tag))
            &&& match check {
                TargetCheck::Osv(Some(v)) => reasons_view(f.reasons@) == osv_reasons(v@),
                TargetCheck::Osv(None) => f.reasons@.len() == 0,
                TargetCheck::Provenance(Ok(true)) => f.reasons@.len() == 0,
                TargetCheck::Provenance(Ok(false)) => reasons_view(f.reasons@) == seq![
                    ("PROVENANCE_FAIL"@, "Provenance signature verification failed"@, true),
                ],
                TargetCheck::Provenance(Err(_)) => false,
            }
        },
{
    let reasons: Vec<(String, String, bool)> = match check {
        TargetCheck::Osv(Some(v)) => {
            let mut out: Vec<(String, String, bool)> = Vec::new();
            let mut i: usize = 0;
            while i < v.len()
                invariant
                    0 <= i <= v.len(),
                    reasons_view(out@) == osv_reasons(v@.take(i as int)),
                decreases v.len() - i,
            {
                let (id, summary, details) = &v[i];
                let attack = describes_attack(summary.as_str(), details.as_str());
                let ghost prev = reasons_view(out@);
                out.push((id.clone(), summary.clone(), attack));
                assert(reasons_view(out@) =~= prev.push((id@, summary@, attack)));
                assert(osv_reasons(v@.take(i + 1)) =~= osv_reasons(v@.take(i as int)).push((id@, summary@, attack)));
                i = i + 1;
            }
            assert(v@.take(v.len() as int) =~= v@);
            out
        },
        TargetCheck::Osv(None) => Vec::new(),
        TargetCheck::Provenance(Ok(true)) => Vec::new(),
        TargetCheck::Provenance(Ok(false)) => {
            let p = provenance_failure();
            assert(reasons_view(p@) =~= seq![("PROVENANCE_FAIL"@, "Provenance signature verification failed"@, true)]);
            p
        },
        TargetCheck::Provenance(Err(_)) => return None,
    };
    Some(Finding {
        action: target.action.0.clone(),
        sha: target.sha.clone(),
        candidate: target.candidate.clone(),
        version: target_version(target),
        reasons,
    })
}

/// The reasons of a finding as plain values.
pub open spec fn reasons_view(rs: Seq<(String, String, bool)>) -> Seq<(Seq<char>, Seq<char>, bool)> {
    rs.map_values(|x: (String, String, bool)| (x.0@, x.1@, x.2))
}

/// The class of a finding (see [`class_of`]).
pub open spec fn finding_class(f: Finding) -> ScanClass {
    class_of(reasons_view(f.reasons@))
}

/// The positions, among the first `n` findings, of those in class `c`, in
/// increasing order.
pub open spec fn class_positions_upto(fs: Seq<Finding>, c: ScanClass, n: int) -> Seq<usize>
    decreases n,
{
    if n <= 0 {
        Seq::empty()
    } else if finding_class(fs[n - 1]) == c {
        class_positions_upto(fs, c, n - 1).push((n - 1) as usize)
    } else {
        class_positions_upto(fs, c, n - 1)
    }
}

/// The positions of the findings in class `c`, in increasing order.
pub fn class_positions(findings: &Vec<Finding>, class: ScanClass) -> (r: Vec<usize>)
    ensures
        r@ == class_positions_upto(findings@, class, findings@.len() as int),
{
    let mut out: Vec<usize> = Vec::new();
    let mut i: usize = 0;
    while i < findings.len()
        invariant
            0 <= i <= findings.len(),
            out@ == class_positions_upto(findings@, class, i as int),
        decreases findings.len() - i,
    {
        if classify(&findings[i].reasons) == class {
            out.push(i);
        }
        i = i + 1;
    }
    out
}

/// The positions in `ps` whose finding the list does not name yet (see
/// [`lists_ref`]), in order.
pub open spec fn unlisted_of(fs: Seq<Finding>, ps: Seq<usize>, list: Seq<SecurityEntry>) -> Seq<usize>
    decreases ps.len(),
{
    if ps.len() == 0 {
        Seq::empty()
    } else {
        let prev = unlisted_of(fs, ps.drop_last(), list);
        let f = fs[ps.last() as int];
        if lists_ref(list, f.action@, f.sha@) {
            prev
        } else {
            prev.push(ps.last())
        }
    }
}

/// Keeps the positions whose finding the list does not name yet.
pub fn unlisted(findings: &Vec<Finding>, positions: &Vec<usize>, list: &Vec<SecurityEntry>) -> (r: Vec<usize>)
    requires
        forall|i: int| 0 <= i < positions.len() ==> #[trigger] positions@[i] < findings.len(),
    ensures
        r@ == unlisted_of(findings@, positions@, list@),
{
    let mut out: Vec<usize> = Vec::new();
    let mut i: usize = 0;
    while i < positions.len()
        invariant
            0 <= i <= positions.len(),
            forall|j: int| 0 <= j < positions.len() ==> #[trigger] positions@[j] < findings.len(),
            out@ == unlisted_of(findings@, positions@.take(i as int), list@),
        decreases positions.len() - i,
    {
        assert(positions@.take(i + 1).drop_last() =~= positions@.take(i as int));
        let p = positions[i];
        let f = &findings[p];
        if !already_listed(list, f.action.as_str(), f.sha.as_str()) {
            out.push(p);
        }
        i = i + 1;
    }
    assert(positions@.take(i as int) =~= positions@);
    out
}

/// The entries to record for the picks: the action, pinned reference and
/// version of the finding at `ps[k]` for each pick `k`, in order.
pub open spec fn picked_of(fs: Seq<Finding>, ps: Seq<usize>, chosen: Seq<usize>) -> Seq<(Seq<char>, Seq<char>, Option<Seq<char>>)> {
    chosen.map_values(|k: usize| {
        let f = fs[ps[k as int] as int];
        (f.action@, f.sha@, opt_view(f.version))
    })
}

/// The entries to record for the picks (see [`picked_of`]).
pub fn picked_entries(findings: &Vec<Finding>, positions: &Vec<usize>, chosen: &Vec<usize>) -> (r: Vec<(String, String, Option<String>)>)
    requires
        forall|i: int| 0 <= i < positions.len() ==> #[trigger] positions@[i] < findings.len(),
        forall|i: int| 0 <= i < chosen.len() ==> #[trigger] chosen@[i] < positions.len(),
    ensures
        r@.map_values(|x: (String, String, Option<String>)| (x.0@, x.1@, opt_view(x.2))) == picked_of(findings@, positions@, chosen@),
{
    let mut out: Vec<(String, String, Option<String>)> = Vec::new();
    let mut i: usize = 0;
    while i < chosen.len()
        invariant
            0 <= i <= chosen.len(),
            forall|j: int| 0 <= j < positions.len() ==> #[trigger] positions@[j] < findings.len(),
            forall|j: int| 0 <= j < chosen.len() ==> #[trigger] chosen@[j] < positions.len(),
            out@.len() == i,
            forall|j: int| 0 <= j < i ==> (#[trigger] out@[j]).0@ == findings@[positions@[chosen@[j] as int] as int].action@
                && out@[j].1@ == findings@[positions@[chosen@[j] as int] as int].sha@
                && opt_view(out@[j].2) == opt_view(findings@[positions@[chosen@[j] as int] as int].version),
        decreases chosen.len() - i,
    {
        let f = &findings[positions[chosen[i]]];
        let version = match &f.version {
            Some(v) => Some(v.clone()),
            None => None,
        };
        out.push((f.action.clone(), f.sha.clone(), version));
        i = i + 1;
    }
    assert(out@.map_values(|x: (String, String, Option<String>)| (x.0@, x.1@, opt_view(x.2))) =~= picked_of(
        findings@,
        positions@,
        chosen@,
    ));
    out
}

// ---------------------------------------------------------------------------
// The report
// ---------------------------------------------------------------------------

/// A line of the scan report, before it is rendered.
pub enum ReportLine {
    /// The report's heading.
    Header,
    /// The heading of the section of a class.
    Title(ScanClass),
    /// A dependency of a class: action, pinned reference, upgrade candidate.
    Dependency(ScanClass, Seq<char>, Seq<char>, Seq<char>),
    /// A vulnerability of a dependency of a class: identifier, summary.
    Reason(ScanClass, Seq<char>, Seq<char>),
}

/// The lines of the section of the findings at `ps`, all of class `c`: none
/// for no finding; else the title, then each dependency followed (but for
/// clean ones) by its vulnerabilities.
pub open spec fn section_plan(fs: Seq<Finding>, ps: Seq<usize>, c: ScanClass) -> Seq<ReportLine> {
    if ps.len() == 0 {
        Seq::empty()
    } else {
        seq![ReportLine::Title(c)] + entries_plan(fs, ps, c)
    }
}

/// The lines of the findings at `ps`, in order (see [`finding_plan`]).
pub open spec fn entries_plan(fs: Seq<Finding>, ps: Seq<usize>, c: ScanClass) -> Seq<ReportLine>
    decreases ps.len(),
{
    if ps.len() == 0 {
        Seq::empty()
    } else {
        entries_plan(fs, ps.drop_last(), c) + finding_plan(fs[ps.last() as int], c)
    }
}

/// The lines of one finding of class `c`.
pub open spec fn finding_plan(f: Finding, c: ScanClass) -> Seq<ReportLine> {
    seq![ReportLine::Dependency(c, f.action@, f.sha@, f.candidate@)] + if c == ScanClass::Clean {
        Seq::empty()
    } else {
        reasons_view(f.reasons@).map_values(|x: (Seq<char>, Seq<char>, bool)| ReportLine::Reason(c, x.0, x.1))
    }
}

/// The lines of the report: its heading, then the sections of the
/// compromised, the vulnerable and the clean dependencies.
pub open spec fn report_plan(fs: Seq<Finding>, compromised: Seq<usize>, vulnerable: Seq<usize>, clean: Seq<usize>) -> Seq<ReportLine> {
    seq![ReportLine::Header] + section_plan(fs, compromised, ScanClass::Compromised) + section_plan(
        fs,
        vulnerable,
        ScanClass::Vulnerable,
    ) + section_plan(fs, clean, ScanClass::Clean)
}

/// The heading of a section.
pub open spec fn title_of(c: ScanClass) -> Seq<char> {
    match c {
        ScanClass::Compromised => "✗ Compromised Dependencies (Supply Chain Attacks):"@,
        ScanClass::Vulnerable => "⚠ Vulnerable Dependencies (Standard CVEs):"@,
        ScanClass::Clean => "✔ Clean Dependencies:"@,
    }
}

/// The style of a section's heading: bold red, bold yellow, bold green.
pub open spec fn title_code(c: ScanClass) -> Seq<char> {
    match c {
        ScanClass::Compromised => "1;31"@,
        ScanClass::Vulnerable => "1;33"@,
        ScanClass::Clean => "1;32"@,
    }
}

/// A line printed after an empty line.
pub open spec fn after_blank(s: Seq<char>) -> Seq<char> {
    "\n"@ + s
}

/// The line of a dependency from its rendered action, reference and
/// candidate.
pub open spec fn dependency_text(c: ScanClass, a: Seq<char>, s: Seq<char>, k: Seq<char>) -> Seq<char> {
    "  "@ + a + "@"@ + s + match c {
        ScanClass::Compromised => " is COMPROMISED! (Upgrade candidate: "@,
        ScanClass::Vulnerable => " has known vulnerabilities: (Upgrade candidate: "@,
        ScanClass::Clean => " (Upgrade candidate: "@,
    } + k + ")"@
}

/// The colour of a vulnerability's identifier: red for a compromised
/// dependency, else magenta.
pub open spec fn reason_code(c: ScanClass) -> Seq<char> {
    if c == ScanClass::Compromised {
        "31"@
    } else {
        "35"@
    }
}

/// The line of a vulnerability from its rendered identifier.
pub open spec fn reason_text(id: Seq<char>, summary: Seq<char>) -> Seq<char> {
    "    - "@ + id + ": "@ + summary
}

/// `text` is the line of a dependency: the action yellow, the reference
/// cyan and the candidate magenta.
pub open spec fn dependency_rendered(c: ScanClass, action: Seq<char>, sha: Seq<char>, candidate: Seq<char>, text: Seq<char>) -> bool {
    exists|a: Seq<char>, s: Seq<char>, k: Seq<char>|
        #![trigger dependency_text(c, a, s, k)]
        painted(action, "33"@, a) && painted(sha, "36"@, s) && painted(candidate, "35"@, k) && text == dependency_text(c, a, s, k)
}

/// `text` is the line of a vulnerability, its identifier in the colour of
/// the class (see [`reason_code`]).
pub open spec fn reason_rendered(c: ScanClass, id: Seq<char>, summary: Seq<char>, text: Seq<char>) -> bool {
    exists|x: Seq<char>| #![trigger reason_text(x, summary)] painted(id, reason_code(c), x) && text == reason_text(x, summary)
}

/// `text` is a heading in the given style, after an empty line.
pub open spec fn heading_rendered(heading: Seq<char>, code: Seq<char>, text: Seq<char>) -> bool {
    exists|h: Seq<char>| #![trigger after_blank(h)] painted(heading, code, h) && text == after_blank(h)
}

/// `text` renders the report line `l`: the heading bold cyan and the section
/// titles in their style, each after an empty line; a dependency or a
/// vulnerability as [`dependency_rendered`] and [`reason_rendered`] say.
pub open spec fn rendered(l: ReportLine, text: Seq<char>) -> bool {
    match l {
        ReportLine::Header => heading_rendered("=== Pinner Security Scan Report ==="@, "1;36"@, text),
        ReportLine::Title(c) => heading_rendered(title_of(c), title_code(c), text),
        ReportLine::Dependency(c, action, sha, candidate) => dependency_rendered(c, action, sha, candidate, text),
        ReportLine::Reason(c, id, summary) => reason_rendered(c, id, summary, text),
    }
}

/// The rendered lines `lines[start..]` render `plan`, and `lines[..start]`
/// are those of `before`.
pub open spec fn renders_from(lines: Seq<String>, before: Seq<String>, start: int, plan: Seq<ReportLine>) -> bool {
    &&& lines.len() == start + plan.len()
    &&& before.len() == start
    &&& forall|i: int| 0 <= i < start ==> lines[i] == #[trigger] before[i]
    &&& forall|i: int| 0 <= i < plan.len() ==> #[trigger] rendered(plan[i], lines[start + i]@)
}

fn title_line(c: ScanClass) -> (r: String)
    ensures
        rendered(ReportLine::Title(c), r@),
{
    let h = match c {
        ScanClass::Compromised => red_bold("✗ Compromised Dependencies (Supply Chain Attacks):"),
        ScanClass::Vulnerable => yellow_bold("⚠ Vulnerable Dependencies (Standard CVEs):"),
        ScanClass::Clean => green_bold("✔ Clean Dependencies:"),
    };
    let r = concat("\n", h.as_str());
    assert(r@ == after_blank(h@));
    r
}

fn dependency_line(f: &Finding, c: ScanClass) -> (r: String)
    ensures
        rendered(ReportLine::Dependency(c, f.action@, f.sha@, f.candidate@), r@),
{
    let a = yellow(f.action.as_str());
    let s = cyan(f.sha.as_str());
    let k = magenta(f.candidate.as_str());
    let middle = match c {
        ScanClass::Compromised => " is COMPROMISED! (Upgrade candidate: ",
        ScanClass::Vulnerable => " has known vulnerabilities: (Upgrade candidate: ",
        ScanClass::Clean => " (Upgrade candidate: ",
    };
    let s1 = concat("  ", a.as_str());
    let s2 = concat(s1.as_str(), "@");
    let s3 = concat(s2.as_str(), s.as_str());
    let s4 = concat(s3.as_str(), middle);
    let s5 = concat(s4.as_str(), k.as_str());
    let r = concat(s5.as_str(), ")");
    assert(r@ == dependency_text(c, a@, s@, k@));
    r
}

fn reason_line(id: &str, summary: &str, c: ScanClass) -> (r: String)
    ensures
        rendered(ReportLine::Reason(c, id@, summary@), r@),
{
    let x = if c == ScanClass::Compromised {
        red(id)
    } else {
        magenta(id)
    };
    assert(painted(id@, reason_code(c), x@));
    let s1 = concat("    - ", x.as_str());
    let s2 = concat(s1.as_str(), ": ");
    let r = concat(s2.as_str(), summary);
    assert(r@ == reason_text(x@, summary@));
    r
}

/// Appends the lines of one finding.
fn push_finding(lines: &mut Vec<String>, f: &Finding, c: ScanClass)
    ensures
        renders_from(final(lines)@, old(lines)@, old(lines)@.len() as int, finding_plan(*f, c)),
{
    let ghost start = lines@.len() as int;
    let ghost before = lines@;
    let ghost plan = finding_plan(*f, c);
    lines.push(dependency_line(f, c));
    if c == ScanClass::Clean {
        assert(renders_from(lines@, before, start, plan));
        return;
    }
    let ghost rv = reasons_view(f.reasons@);
    let mut j: usize = 0;
    while j < f.reasons.len()
        invariant
            0 <= j <= f.reasons.len(),
            c != ScanClass::Clean,
            rv == reasons_view(f.reasons@),
            plan == finding_plan(*f, c),
            before.len() == start,
            lines@.len() == start + 1 + j,
            forall|i: int| 0 <= i < start ==> lines@[i] == #[trigger] before[i],
            forall|i: int| 0 <= i < 1 + j ==> #[trigger] rendered(plan[i], lines@[start + i]@),
        decreases f.reasons.len() - j,
    {
        let (id, summary, _) = &f.reasons[j];
        assert(plan[1 + j] == ReportLine::Reason(c, rv[j as int].0, rv[j as int].1));
        lines.push(reason_line(id.as_str(), summary.as_str(), c));
        j = j + 1;
    }
}

/// Appends the section of the findings at `ps`.
fn push_section(lines: &mut Vec<String>, findings: &Vec<Finding>, ps: &Vec<usize>, c: ScanClass)
    requires
        forall|i: int| 0 <= i < ps.len() ==> #[trigger] ps@[i] < findings.len(),
    ensures
        renders_from(final(lines)@, old(lines)@, old(lines)@.len() as int, section_plan(findings@, ps@, c)),
{
    let ghost start = lines@.len() as int;
    let ghost before = lines@;
    if ps.len() == 0 {
        return;
    }
    lines.push(title_line(c));
    let mut k: usize = 0;
    while k < ps.len()
        invariant
            0 <= k <= ps.len(),
            forall|i: int| 0 <= i < ps.len() ==> #[trigger] ps@[i] < findings.len(),
            before.len() == start,
            renders_from(lines@, before, start, seq![ReportLine::Title(c)] + entries_plan(findings@, ps@.take(k as int), c)),
        decreases ps.len() - k,
    {
        let ghost prev = lines@;
        let ghost head = seq![ReportLine::Title(c)] + entries_plan(findings@, ps@.take(k as int), c);
        push_finding(lines, &findings[ps[k]], c);
        let ghost fp = finding_plan(findings@[ps@[k as int] as int], c);
        assert(ps@.take(k + 1).drop_last() =~= ps@.take(k as int));
        let ghost next = seq![ReportLine::Title(c)] + entries_plan(findings@, ps@.take(k + 1), c);
        assert(next =~= head + fp);
        assert forall|i: int| 0 <= i < next.len() implies #[trigger] rendered(next[i], lines@[start + i]@) by {
            if i < head.len() {
                assert(next[i] == head[i]);
                assert(lines@[start + i] == prev[start + i]);
            } else {
                assert(next[i] == fp[i - head.len()]);
                assert(start + i == prev.len() + (i - head.len()));
            }
        }
        k = k + 1;
    }
    assert(ps@.take(ps.len() as int) =~= ps@);
}

/// The lines of the scan report (see [`report_plan`]), each rendered as
/// [`rendered`] says; `compromised`, `vulnerable` and `clean` are positions
/// in `findings`.
pub fn scan_report(findings: &Vec<Finding>, compromised: &Vec<usize>, vulnerable: &Vec<usize>, clean: &Vec<usize>) -> (r: Vec<String>)
    requires
        forall|i: int| 0 <= i < compromised.len() ==> #[trigger] compromised@[i] < findings.len(),
        forall|i: int| 0 <= i < vulnerable.len() ==> #[trigger] vulnerable@[i] < findings.len(),
        forall|i: int| 0 <= i < clean.len() ==> #[trigger] clean@[i] < findings.len(),
    ensures
        r@.len() == report_plan(findings@, compromised@, vulnerable@, clean@).len(),
        forall|i: int| 0 <= i < r@.len() ==> #[trigger] rendered(report_plan(findings@, compromised@, vulnerable@, clean@)[i], r@[i]@),
{
    let mut lines: Vec<String> = Vec::new();
    let h = cyan_bold("=== Pinner Security Scan Report ===");
    let header = concat("\n", h.as_str());
    assert(header@ == after_blank(h@));
    lines.push(header);
    let ghost p0 = seq![ReportLine::Header];
    assert(renders_from(lines@, Seq::<String>::empty(), 0, p0));
    let ghost l1 = lines@;
    push_section(&mut lines, findings, compromised, ScanClass::Compromised);
    let ghost p1 = p0 + section_plan(findings@, compromised@, ScanClass::Compromised);
    proof { lemma_renders_join(lines@, l1, Seq::empty(), p0, section_plan(findings@, compromised@, ScanClass::Compromised)); }
    let ghost l2 = lines@;
    push_section(&mut lines, findings, vulnerable, ScanClass::Vulnerable);
    let ghost p2 = p1 + section_plan(findings@, vulnerable@, ScanClass::Vulnerable);
    proof { lemma_renders_join(lines@, l2, Seq::empty(), p1, section_plan(findings@, vulnerable@, ScanClass::Vulnerable)); }
    let ghost l3 = lines@;
    push_section(&mut lines, findings, clean, ScanClass::Clean);
    proof { lemma_renders_join(lines@, l3, Seq::empty(), p2, section_plan(findings@, clean@, ScanClass::Clean)); }
    let ghost plan = report_plan(findings@, compromised@, vulnerable@, clean@);
    assert(p2 + section_plan(findings@, clean@, ScanClass::Clean) =~= plan);
    assert forall|i: int| 0 <= i < lines@.len() implies #[trigger] rendered(plan[i], lines@[i]@) by {
        assert(rendered(plan[i], lines@[0 + i]@));
    }
    lines
}

/// Lines that render `first` from 0 and then `second` render both.
proof fn lemma_renders_join(lines: Seq<String>, mid: Seq<String>, before: Seq<String>, first: Seq<ReportLine>, second: Seq<ReportLine>)
    requires
        renders_from(mid, before, 0, first),
        renders_from(lines, mid, mid.len() as int, second),
    ensures
        renders_from(lines, before, 0, first + second),
{
    let both = first + second;
    assert forall|i: int| 0 <= i < both.len() implies #[trigger] rendered(both[i], lines[0 + i]@) by {
        if i < first.len() {
            assert(both[i] == first[i]);
            assert(lines[i] == mid[i]);
        } else {
            assert(both[i] == second[i - first.len()]);
            assert(mid.len() + (i - first.len()) == i);
        }
    }
}

} // verus!
