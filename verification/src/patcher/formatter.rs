//! Security labels and human-readable rendering of updates.
use crate::cli::OutputFormat;
use crate::domain::update::UpdateResult;
use crate::style::{green_bold, painted, red_bold, reset_code, yellow};
use crate::text::{chars_of, concat, contains, has_prefix, occurs_at, owned, slice_chars, starts_with, str_eq, string_of};
use vstd::prelude::*;

verus! {

/// Security status of a hash.
#[derive(Debug, Clone, Copy, PartialEq, Eq, Structural)]
pub enum HashSecurityStatus {
    /// Hash is explicitly vetted/trusted.
    Vetted,
    /// Hash is explicitly marked as compromised.
    Compromised,
    /// Hash is not checked/verified yet.
    NotChecked,
}

/// The `docker://` scheme of container references.
pub open spec fn docker_scheme() -> Seq<char> {
    "docker://"@
}

/// A name with every leading `docker://` removed (as `trim_start_matches`
/// does).
pub open spec fn strip_docker(a: Seq<char>) -> Seq<char>
    decreases a.len(),
{
    if docker_scheme().len() > 0 && has_prefix(a, docker_scheme()) {
        strip_docker(a.skip(docker_scheme().len() as int))
    } else {
        a
    }
}

/// The reference `action@hash` written with the other Docker spelling: without
/// the scheme when the action has one, with it otherwise.
pub open spec fn docker_variant(action: Seq<char>, hash: Seq<char>) -> Seq<char> {
    if has_prefix(action, docker_scheme()) {
        strip_docker(action) + "@"@ + hash
    } else {
        docker_scheme() + action + "@"@ + hash
    }
}

/// A list entry names the pinned reference: its hash, its action, the full
/// `action@hash`, or the full reference in the other Docker spelling.
pub open spec fn names_ref(item: Seq<char>, action: Seq<char>, hash: Seq<char>) -> bool {
    item == hash || item == action || item == action + "@"@ + hash || item == docker_variant(
        action,
        hash,
    )
}

/// Some entry of the list names the reference.
pub open spec fn listed(list: Seq<String>, action: Seq<char>, hash: Seq<char>) -> bool {
    exists|i: int| 0 <= i < list.len() && names_ref((#[trigger] list[i])@, action, hash)
}

/// The status of a reference: compromised if the compromised list names it
/// (even when it is also vetted), else vetted if the vetted list names it,
/// else not checked.
pub open spec fn security_status(
    vetted: Seq<String>,
    compromised: Seq<String>,
    action: Seq<char>,
    hash: Seq<char>,
) -> HashSecurityStatus {
    if listed(compromised, action, hash) {
        HashSecurityStatus::Compromised
    } else if listed(vetted, action, hash) {
        HashSecurityStatus::Vetted
    } else {
        HashSecurityStatus::NotChecked
    }
}

/// The label shown after a reference, before colouring.
pub open spec fn status_label(status: HashSecurityStatus) -> Seq<char> {
    match status {
        HashSecurityStatus::Vetted => " [✓ vetted]"@,
        HashSecurityStatus::Compromised => " [✗ compromised]"@,
        HashSecurityStatus::NotChecked => " [? not checked]"@,
    }
}

/// The SGR code of each label's colour.
pub open spec fn status_code(status: HashSecurityStatus) -> Seq<char> {
    match status {
        HashSecurityStatus::Vetted => "1;32"@,
        HashSecurityStatus::Compromised => "1;31"@,
        HashSecurityStatus::NotChecked => "33"@,
    }
}

/// Renders the security label of a status: nothing when feedback is off,
/// otherwise the coloured label (` [✓ vetted]` in bold green,
/// ` [✗ compromised]` in bold red, ` [? not checked]` in yellow).
pub fn format_security_status(status: HashSecurityStatus, show: bool) -> (r: String)
    ensures
        !show ==> r@.len() == 0,
        show ==> painted(status_label(status), status_code(status), r@),
{
    if !show {
        return String::new();
    }
    match status {
        HashSecurityStatus::Vetted => green_bold(" [✓ vetted]"),
        HashSecurityStatus::Compromised => red_bold(" [✗ compromised]"),
        HashSecurityStatus::NotChecked => yellow(" [? not checked]"),
    }
}

/// The text shown for a status names that status alone: the other two
/// labels occur nowhere in it, coloured or not.
pub proof fn lemma_status_label_alone(status: HashSecurityStatus, other: HashSecurityStatus, r: Seq<char>)
    requires
        painted(status_label(status), status_code(status), r),
        other != status,
    ensures
        !contains(r, status_label(other)),
{
    reveal_strlit(" [✓ vetted]");
    reveal_strlit(" [✗ compromised]");
    reveal_strlit(" [? not checked]");
    reveal_strlit("1;32");
    reveal_strlit("1;31");
    reveal_strlit("33");
    reveal_strlit("\x1B[");
    reveal_strlit("m");
    reveal_strlit("\x1B[0m");
    let l = status_label(status);
    let p = status_label(other);
    assert(!contains(l, reset_code()) ==> (r == l || r == "\x1B["@ + status_code(status) + "m"@ + l + reset_code()));
    assert(!contains(l, reset_code())) by {
        assert forall|i: int| !occurs_at(l, reset_code(), i) by {
            if occurs_at(l, reset_code(), i) {
                assert(l.subrange(i, i + 4)[0] == l[i]);
            }
        }
    }
    assert forall|i: int| !occurs_at(r, p, i) by {
        if occurs_at(r, p, i) {
            assert(r.subrange(i, i + p.len())[2] == r[i + 2]);
            assert(r.subrange(i, i + p.len())[3] == r[i + 3]);
            assert(p[2] == '[');
        }
    }
}

/// `a` with every leading `docker://` removed.
fn strip_docker_exec(a: &str) -> (r: String)
    ensures
        r@ == strip_docker(a@),
{
    let p = chars_of("docker://");
    let mut v = chars_of(a);
    proof {
        reveal_strlit("docker://");
    }
    while starts_with(&v, &p)
        invariant
            strip_docker(v@) == strip_docker(a@),
            p@ == docker_scheme(),
            p@.len() == 9,
        decreases v@.len(),
    {
        v = slice_chars(&v, 9, v.len());
    }
    string_of(&v)
}

/// Generates human-readable and machine-readable output, and labels
/// references with their security status.
pub struct Formatter {
    /// The desired output format.
    pub format: OutputFormat,
    /// If true, suppresses most console output.
    pub quiet: bool,
    /// Vetted dependency hashes or references.
    pub vetted: Vec<String>,
    /// Compromised dependency hashes or references.
    pub compromised: Vec<String>,
    /// Show visual security feedback.
    pub show_security_feedback: bool,
}

impl Formatter {
    /// Creates a new `Formatter`.
    pub fn new(
        format: OutputFormat,
        quiet: bool,
        vetted: Vec<String>,
        compromised: Vec<String>,
        show_security_feedback: bool,
    ) -> (r: Self)
        ensures
            r.format == format,
            r.quiet == quiet,
            r.vetted == vetted,
            r.compromised == compromised,
            r.show_security_feedback == show_security_feedback,
    {
        Formatter { format, quiet, vetted, compromised, show_security_feedback }
    }

    /// The security status of `action` pinned to `hash`: compromised entries
    /// win over vetted ones.
    pub fn check_hash_security(&self, action: &str, hash: &str) -> (r: HashSecurityStatus)
        ensures
            r == security_status(self.vetted@, self.compromised@, action@, hash@),
    {
        let with_at = {
            let a = concat(action, "@");
            concat(a.as_str(), hash)
        };
        let docker = if starts_with(&chars_of(action), &chars_of("docker://")) {
            let s = strip_docker_exec(action);
            let a = concat(s.as_str(), "@");
            concat(a.as_str(), hash)
        } else {
            let a = concat("docker://", action);
            let b = concat(a.as_str(), "@");
            concat(b.as_str(), hash)
        };
        assert(docker@ == docker_variant(action@, hash@));
        if any_names(&self.compromised, action, hash, &with_at, &docker) {
            HashSecurityStatus::Compromised
        } else if any_names(&self.vetted, action, hash, &with_at, &docker) {
            HashSecurityStatus::Vetted
        } else {
            HashSecurityStatus::NotChecked
        }
    }
}

/// Whether some entry of `list` names the reference.
fn any_names(list: &Vec<String>, action: &str, hash: &str, with_at: &String, docker: &String) -> (r:
    bool)
    requires
        with_at@ == action@ + "@"@ + hash@,
        docker@ == docker_variant(action@, hash@),
    ensures
        r == listed(list@, action@, hash@),
{
    let mut i: usize = 0;
    while i < list.len()
        invariant
            0 <= i <= list.len(),
            with_at@ == action@ + "@"@ + hash@,
            docker@ == docker_variant(action@, hash@),
            forall|j: int| 0 <= j < i ==> !names_ref((#[trigger] list@[j])@, action@, hash@),
        decreases list.len() - i,
    {
        let item = list[i].as_str();
        if str_eq(item, hash) || str_eq(item, action) || str_eq(item, with_at.as_str()) || str_eq(
            item,
            docker.as_str(),
        ) {
            assert(names_ref(list@[i as int]@, action@, hash@));
            return true;
        }
        i = i + 1;
    }
    false
}

/// One row of the Markdown summary: file, action, old reference (or `-`)
/// and new reference.
pub open spec fn markdown_row(r: UpdateResult) -> Seq<char> {
    "| `"@ + r.path@ + "` | `"@ + r.action.0@ + "` | `"@ + match r.old_tag {
        Some(t) => t@,
        None => "-"@,
    } + "` | `"@ + r.new_sha.text() + "` |\n"@
}

pub open spec fn markdown_rows(rs: Seq<UpdateResult>) -> Seq<char>
    decreases rs.len(),
{
    if rs.len() == 0 {
        Seq::empty()
    } else {
        markdown_rows(rs.drop_last()) + markdown_row(rs.last())
    }
}

/// The Markdown summary of updates: a heading and a table with a row per
/// update.
pub open spec fn markdown_summary_text(rs: Seq<UpdateResult>) -> Seq<char> {
    "\n# Pinner Update Summary\n\n| File | Action | Old Ref | New SHA |\n|------|--------|---------|---------|\n"@ + markdown_rows(rs)
}

/// The Markdown summary of updates (see [`markdown_summary_text`]).
pub fn markdown_summary(results: &Vec<UpdateResult>) -> (r: String)
    ensures
        r@ == markdown_summary_text(results@),
{
    let mut out = owned("\n# Pinner Update Summary\n\n| File | Action | Old Ref | New SHA |\n|------|--------|---------|---------|\n");
    let ghost head = out@;
    let mut i: usize = 0;
    while i < results.len()
        invariant
            0 <= i <= results.len(),
            out@ == head + markdown_rows(results@.take(i as int)),
        decreases results.len() - i,
    {
        let r = &results[i];
        assert(results@.take(i + 1).drop_last() =~= results@.take(i as int));
        assert(results@.take(i + 1).last() == *r);
        let old = match &r.old_tag {
            Some(t) => t.clone(),
            None => owned("-"),
        };
        let a = concat("| `", r.path.as_str());
        let b = concat(a.as_str(), "` | `");
        let c = concat(b.as_str(), r.action.0.as_str());
        let d = concat(c.as_str(), "` | `");
        let e = concat(d.as_str(), old.as_str());
        let f = concat(e.as_str(), "` | `");
        let g = concat(f.as_str(), r.new_sha.to_string().as_str());
        let row = concat(g.as_str(), "` |\n");
        out = concat(out.as_str(), row.as_str());
        i = i + 1;
    }
    assert(results@.take(results.len() as int) =~= results@);
    out
}

} // verus!
