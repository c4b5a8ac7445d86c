//! Diffs of patched files as shown on the console: a line diff of a whole
//! file, with the security label of each inserted reference, and a word diff
//! of a single reference.
//!
//! The diff itself is computed by the `similar` crate; what is shown of it
//! is this module's.
use crate::domain::update::UpdateResult;
use crate::patcher::formatter::{format_security_status, security_status, status_code, status_label, Formatter, HashSecurityStatus};
use crate::style::{dimmed, green, green_bold, painted, red, yellow};
use crate::text::{chars_of, concat, contains, contains_exec, slice_chars, string_of, trailing_ws, trim, trim_chars, trim_end};
use similar::{ChangeTag, TextDiff};
use vstd::prelude::*;

verus! {

/// A change of a diff as values: its kind (0 equal, 1 deleted, 2 inserted)
/// and its text.
pub type ChangeView = (u8, Seq<char>);

pub open spec fn changes_view(cs: Seq<(u8, String)>) -> Seq<ChangeView> {
    cs.map_values(|c: (u8, String)| (c.0, c.1@))
}

/// The changes, in order, of `similar`'s line diff of two texts
/// (`TextDiff::from_lines`, `iter_all_changes`), each with the text its
/// `Display` writes (the line, with a newline added where it has none).
pub uninterp spec fn similar_line_changes(old: Seq<char>, new: Seq<char>) -> Seq<ChangeView>;

/// The changes, in order, of `similar`'s word diff of two texts
/// (`TextDiff::from_words`, `iter_all_changes`), each with its value.
pub uninterp spec fn similar_word_changes(old: Seq<char>, new: Seq<char>) -> Seq<ChangeView>;

/// `similar`'s line diff of two texts. Trusted: the changes are the crate's,
/// named by `similar_line_changes`.
#[verifier::external_body]
fn line_changes(old: &str, new: &str) -> (r: Vec<(u8, String)>)
    ensures
        changes_view(r@) == similar_line_changes(old@, new@),
{
    let diff = TextDiff::from_lines(old, new);
    diff.iter_all_changes().map(|c| (match c.tag() {
        ChangeTag::Equal => 0u8,
        ChangeTag::Delete => 1u8,
        ChangeTag::Insert => 2u8,
    }, c.to_string())).collect()
}

/// `similar`'s word diff of two texts. Trusted: the changes are the crate's,
/// named by `similar_word_changes`.
#[verifier::external_body]
fn word_changes(old: &str, new: &str) -> (r: Vec<(u8, String)>)
    ensures
        changes_view(r@) == similar_word_changes(old@, new@),
{
    let diff = TextDiff::from_words(old, new);
    diff.iter_all_changes().map(|c| (match c.tag() {
        ChangeTag::Equal => 0u8,
        ChangeTag::Delete => 1u8,
        ChangeTag::Insert => 2u8,
    }, c.value().to_string())).collect()
}

// ---------------------------------------------------------------------------
// Line diffs
// ---------------------------------------------------------------------------

/// The rendered pieces of a line diff: the signs and the three labels.
pub struct DiffStyle {
    pub minus: String,
    pub plus: String,
    pub vetted: String,
    pub compromised: String,
    pub not_checked: String,
}

/// The label of a status in a style.
pub open spec fn label_for(st: DiffStyle, s: HashSecurityStatus) -> Seq<char> {
    match s {
        HashSecurityStatus::Vetted => st.vetted@,
        HashSecurityStatus::Compromised => st.compromised@,
        HashSecurityStatus::NotChecked => st.not_checked@,
    }
}

/// The label of a status as `format_security_status` renders it.
pub open spec fn label_fits(s: HashSecurityStatus, show: bool, label: Seq<char>) -> bool {
    (!show ==> label.len() == 0) && (show ==> painted(status_label(s), status_code(s), label))
}

/// A style holds the signs in red and green and the labels as
/// `format_security_status` renders them.
pub open spec fn style_fits(st: DiffStyle, show: bool) -> bool {
    &&& painted("-"@, "31"@, st.minus@)
    &&& painted("+"@, "32"@, st.plus@)
    &&& label_fits(HashSecurityStatus::Vetted, show, st.vetted@)
    &&& label_fits(HashSecurityStatus::Compromised, show, st.compromised@)
    &&& label_fits(HashSecurityStatus::NotChecked, show, st.not_checked@)
}

/// Renders the pieces of a line diff.
pub fn diff_style(show: bool) -> (r: DiffStyle)
    ensures
        style_fits(r, show),
{
    DiffStyle {
        minus: red("-"),
        plus: green("+"),
        vetted: format_security_status(HashSecurityStatus::Vetted, show),
        compromised: format_security_status(HashSecurityStatus::Compromised, show),
        not_checked: format_security_status(HashSecurityStatus::NotChecked, show),
    }
}

/// The references of results: action and new reference.
pub open spec fn result_refs(rs: Seq<UpdateResult>) -> Seq<(Seq<char>, Seq<char>)> {
    rs.map_values(|r: UpdateResult| (r.action.0@, r.new_sha.text()))
}

/// The first reference whose hash the line holds.
pub open spec fn first_ref_in(line: Seq<char>, refs: Seq<(Seq<char>, Seq<char>)>) -> Option<(Seq<char>, Seq<char>)>
    decreases refs.len(),
{
    if refs.len() == 0 {
        None
    } else if contains(line, refs[0].1) {
        Some(refs[0])
    } else {
        first_ref_in(line, refs.drop_first())
    }
}

/// A line with a label put before its trailing whitespace (unchanged for an
/// empty label).
pub open spec fn annotated(line: Seq<char>, label: Seq<char>) -> Seq<char> {
    if label.len() == 0 {
        line
    } else {
        let k = trim_end(line).len() as int;
        line.subrange(0, k) + label + line.subrange(k, line.len() as int)
    }
}

/// One line of a line diff: deleted lines after a minus, inserted ones after
/// a plus and labelled with the status of the first result whose hash they
/// hold, unchanged ones after a space.
pub open spec fn diff_line(st: DiffStyle, vetted: Seq<String>, compromised: Seq<String>, refs: Seq<(Seq<char>, Seq<char>)>, c: ChangeView) -> Seq<char> {
    if c.0 == 1 {
        st.minus@ + c.1
    } else if c.0 == 2 {
        st.plus@ + match first_ref_in(c.1, refs) {
            Some(rf) => annotated(c.1, label_for(st, security_status(vetted, compromised, rf.0, rf.1))),
            None => c.1,
        }
    } else {
        " "@ + c.1
    }
}

/// A line diff: its lines in order.
pub open spec fn line_diff_text(st: DiffStyle, vetted: Seq<String>, compromised: Seq<String>, refs: Seq<(Seq<char>, Seq<char>)>, cs: Seq<ChangeView>) -> Seq<char>
    decreases cs.len(),
{
    if cs.len() == 0 {
        Seq::empty()
    } else {
        line_diff_text(st, vetted, compromised, refs, cs.drop_last()) + diff_line(st, vetted, compromised, refs, cs.last())
    }
}

fn label_of(st: &DiffStyle, s: HashSecurityStatus) -> (r: &String)
    ensures
        r@ == label_for(*st, s),
{
    match s {
        HashSecurityStatus::Vetted => &st.vetted,
        HashSecurityStatus::Compromised => &st.compromised,
        HashSecurityStatus::NotChecked => &st.not_checked,
    }
}

fn annotate(line: &str, label: &str) -> (r: String)
    ensures
        r@ == annotated(line@, label@),
{
    if chars_of(label).len() == 0 {
        return line.to_string();
    }
    let v = chars_of(line);
    let t = trailing_ws(&v, 0, v.len());
    assert(v@.subrange(0, v@.len() as int) =~= v@);
    let k = v.len() - t;
    let head = string_of(&slice_chars(&v, 0, k));
    let tail = string_of(&slice_chars(&v, k, v.len()));
    let a = concat(head.as_str(), label);
    concat(a.as_str(), tail.as_str())
}

impl Formatter {
    /// Renders a line diff (see [`line_diff_text`]).
    pub fn render_line_diff(&self, style: &DiffStyle, changes: &Vec<(u8, String)>, results: &Vec<UpdateResult>) -> (r: String)
        ensures
            r@ == line_diff_text(*style, self.vetted@, self.compromised@, result_refs(results@), changes_view(changes@)),
    {
        let ghost refs = result_refs(results@);
        let ghost cv = changes_view(changes@);
        let mut out = String::new();
        let mut i: usize = 0;
        while i < changes.len()
            invariant
                0 <= i <= changes.len(),
                refs == result_refs(results@),
                cv == changes_view(changes@),
                out@ == line_diff_text(*style, self.vetted@, self.compromised@, refs, cv.take(i as int)),
            decreases changes.len() - i,
        {
            let c = &changes[i];
            assert(cv.take(i + 1).drop_last() =~= cv.take(i as int));
            assert(cv.take(i + 1).last() == (c.0, c.1@));
            let line = if c.0 == 1 {
                concat(style.minus.as_str(), c.1.as_str())
            } else if c.0 == 2 {
                let body = match self.first_ref(c.1.as_str(), results) {
                    Some(j) => {
                        let sha = results[j].new_sha.to_string();
                        let status = self.check_hash_security(results[j].action.0.as_str(), sha.as_str());
                        annotate(c.1.as_str(), label_of(style, status).as_str())
                    },
                    None => c.1.clone(),
                };
                concat(style.plus.as_str(), body.as_str())
            } else {
                concat(" ", c.1.as_str())
            };
            assert(line@ == diff_line(*style, self.vetted@, self.compromised@, refs, (c.0, c.1@)));
            out = concat(out.as_str(), line.as_str());
            i = i + 1;
        }
        assert(cv.take(changes.len() as int) =~= cv);
        out
    }

    /// The position of the first result whose new reference the line holds.
    fn first_ref(&self, line: &str, results: &Vec<UpdateResult>) -> (r: Option<usize>)
        ensures
            match r {
                Some(j) => j < results.len() && first_ref_in(line@, result_refs(results@)) == Some(
                    result_refs(results@)[j as int],
                ),
                None => first_ref_in(line@, result_refs(results@)) is None,
            },
    {
        let ghost refs = result_refs(results@);
        let v = chars_of(line);
        let mut j: usize = 0;
        assert(refs.skip(0) =~= refs);
        while j < results.len()
            invariant
                0 <= j <= results.len(),
                refs == result_refs(results@),
                v@ == line@,
                first_ref_in(line@, refs) == first_ref_in(line@, refs.skip(j as int)),
            decreases results.len() - j,
        {
            assert(refs.skip(j as int).drop_first() =~= refs.skip(j + 1));
            assert(refs.skip(j as int)[0] == refs[j as int]);
            let sha = results[j].new_sha.to_string();
            if contains_exec(&v, &chars_of(sha.as_str())) {
                return Some(j);
            }
            j = j + 1;
        }
        None
    }

    /// Generates a line-based diff between two texts (see
    /// [`line_diff_text`]), with the pieces rendered as [`diff_style`] does.
    pub fn format_diff(&self, old: &str, new: &str, results: &Vec<UpdateResult>) -> (r: String)
        ensures
            exists|st: DiffStyle|
                #![trigger line_diff_text(st, self.vetted@, self.compromised@, result_refs(results@), similar_line_changes(old@, new@))]
                style_fits(st, self.show_security_feedback) && r@ == line_diff_text(
                    st,
                    self.vetted@,
                    self.compromised@,
                    result_refs(results@),
                    similar_line_changes(old@, new@),
                ),
    {
        let style = diff_style(self.show_security_feedback);
        let changes = line_changes(old, new);
        self.render_line_diff(&style, &changes, results)
    }
}

// ---------------------------------------------------------------------------
// Word diffs
// ---------------------------------------------------------------------------

/// The pieces of one line of a word diff, in order: those of the changes of
/// every kind but `skipped`.
pub open spec fn kept_parts(cs: Seq<ChangeView>, parts: Seq<Seq<char>>, skipped: u8) -> Seq<char>
    decreases cs.len(),
{
    if cs.len() == 0 || parts.len() == 0 {
        Seq::empty()
    } else {
        kept_parts(cs.drop_last(), parts.drop_last(), skipped) + if cs.last().0 == skipped {
            Seq::empty()
        } else {
            parts.last()
        }
    }
}

/// A word diff on two lines: the removals line (minus, then the deleted and
/// unchanged words) and the additions line (plus, then the inserted and
/// unchanged words, then the label).
pub open spec fn inline_text(minus: Seq<char>, plus: Seq<char>, cs: Seq<ChangeView>, removed: Seq<Seq<char>>, added: Seq<Seq<char>>, label: Seq<char>) -> Seq<char> {
    "  "@ + minus + " "@ + kept_parts(cs, removed, 2) + "\n"@ + "  "@ + plus + " "@ + kept_parts(cs, added, 1) + label + "\n"@
}

/// A word of the removals line is painted red (deleted) or dimmed
/// (unchanged); one of the additions line bold green (inserted) or yellow
/// (unchanged).
pub open spec fn word_fits(c: ChangeView, removed: Seq<char>, added: Seq<char>) -> bool {
    &&& (c.0 == 1 ==> painted(c.1, "31"@, removed))
    &&& (c.0 != 1 && c.0 != 2 ==> painted(c.1, "2"@, removed))
    &&& (c.0 == 2 ==> painted(c.1, "1;32"@, added))
    &&& (c.0 != 1 && c.0 != 2 ==> painted(c.1, "33"@, added))
}

/// Every word of both lines is painted as [`word_fits`] says.
pub open spec fn words_fit(cs: Seq<ChangeView>, removed: Seq<Seq<char>>, added: Seq<Seq<char>>) -> bool {
    removed.len() == cs.len() && added.len() == cs.len() && forall|i: int|
        0 <= i < cs.len() ==> #[trigger] word_fits(cs[i], removed[i], added[i])
}

fn kept(cs: &Vec<(u8, String)>, parts: &Vec<String>, skipped: u8) -> (r: String)
    requires
        parts.len() == cs.len(),
    ensures
        r@ == kept_parts(changes_view(cs@), parts@.map_values(|s: String| s@), skipped),
{
    let ghost cv = changes_view(cs@);
    let ghost pv = parts@.map_values(|s: String| s@);
    let mut out = String::new();
    let mut i: usize = 0;
    while i < cs.len()
        invariant
            0 <= i <= cs.len(),
            parts.len() == cs.len(),
            cv == changes_view(cs@),
            pv == parts@.map_values(|s: String| s@),
            out@ == kept_parts(cv.take(i as int), pv.take(i as int), skipped),
        decreases cs.len() - i,
    {
        assert(cv.take(i + 1).drop_last() =~= cv.take(i as int));
        assert(pv.take(i + 1).drop_last() =~= pv.take(i as int));
        assert(cv.take(i + 1).last() == (cs@[i as int].0, cs@[i as int].1@));
        assert(pv.take(i + 1).last() == parts@[i as int]@);
        if cs[i].0 != skipped {
            out = concat(out.as_str(), parts[i].as_str());
        } else {
            assert(out@ + Seq::<char>::empty() =~= out@);
        }
        i = i + 1;
    }
    assert(cv.take(cs.len() as int) =~= cv);
    assert(pv.take(cs.len() as int) =~= pv);
    out
}

/// Renders a word diff from its rendered pieces (see [`inline_text`]).
pub fn render_inline_diff(minus: &str, plus: &str, changes: &Vec<(u8, String)>, removed: &Vec<String>, added: &Vec<String>, label: &str) -> (r: String)
    requires
        removed.len() == changes.len(),
        added.len() == changes.len(),
    ensures
        r@ == inline_text(minus@, plus@, changes_view(changes@), removed@.map_values(|s: String| s@), added@.map_values(|s: String| s@), label@),
{
    let a = concat("  ", minus);
    let b = concat(a.as_str(), " ");
    let c = concat(b.as_str(), kept(changes, removed, 2).as_str());
    let d = concat(c.as_str(), "\n");
    let e = concat(d.as_str(), "  ");
    let f = concat(e.as_str(), plus);
    let g = concat(f.as_str(), " ");
    let h = concat(g.as_str(), kept(changes, added, 1).as_str());
    let i = concat(h.as_str(), label);
    concat(i.as_str(), "\n")
}

fn word_parts(changes: &Vec<(u8, String)>) -> (r: (Vec<String>, Vec<String>))
    ensures
        words_fit(changes_view(changes@), r.0@.map_values(|s: String| s@), r.1@.map_values(|s: String| s@)),
{
    let ghost cv = changes_view(changes@);
    let mut removed: Vec<String> = Vec::new();
    let mut added: Vec<String> = Vec::new();
    let mut i: usize = 0;
    while i < changes.len()
        invariant
            0 <= i <= changes.len(),
            cv == changes_view(changes@),
            words_fit(cv.take(i as int), removed@.map_values(|s: String| s@), added@.map_values(|s: String| s@)),
        decreases changes.len() - i,
    {
        let c = &changes[i];
        let t = c.1.as_str();
        assert(t@ == c.1@);
        let rm = if c.0 == 1 {
            red(t)
        } else if c.0 == 2 {
            String::new()
        } else {
            dimmed(t)
        };
        let ad = if c.0 == 2 {
            green_bold(t)
        } else if c.0 == 1 {
            String::new()
        } else {
            yellow(t)
        };
        let ghost r0 = removed@.map_values(|s: String| s@);
        let ghost a0 = added@.map_values(|s: String| s@);
        removed.push(rm);
        added.push(ad);
        let ghost r1 = removed@.map_values(|s: String| s@);
        let ghost a1 = added@.map_values(|s: String| s@);
        let ghost c1 = cv.take(i + 1);
        assert(r1 =~= r0.push(rm@));
        assert(a1 =~= a0.push(ad@));
        assert(c1 =~= cv.take(i as int).push((c.0, c.1@)));
        assert forall|k: int| 0 <= k < c1.len() implies #[trigger] word_fits(c1[k], r1[k], a1[k]) by {
            if k < i {
                assert(r1[k] == r0[k]);
                assert(a1[k] == a0[k]);
                assert(c1[k] == cv.take(i as int)[k]);
            } else {
                assert(c1[k] == (c.0, c.1@));
                assert(r1[k] == rm@);
                assert(a1[k] == ad@);
            }
        }
        assert(r0.len() == i);
        assert(c1.len() == i + 1);
        assert(r1.len() == c1.len());
        assert(a1.len() == c1.len());
        assert(words_fit(c1, r1, a1));
        i = i + 1;
    }
    assert(cv.take(changes.len() as int) =~= cv);
    (removed, added)
}

impl Formatter {
    /// Generates a word-level inline diff of one reference (see
    /// [`inline_text`]): the words of the trimmed texts, with the label of
    /// `status` after the additions.
    pub fn format_inline_diff(&self, old: &str, new: &str, status: HashSecurityStatus) -> (r: String)
        ensures
            exists|minus: Seq<char>, plus: Seq<char>, removed: Seq<Seq<char>>, added: Seq<Seq<char>>, label: Seq<char>|
                #![trigger inline_text(minus, plus, similar_word_changes(trim(old@), trim(new@)), removed, added, label)]
                painted("-"@, "31"@, minus) && painted("+"@, "32"@, plus) && words_fit(
                    similar_word_changes(trim(old@), trim(new@)),
                    removed,
                    added,
                ) && label_fits(status, self.show_security_feedback, label) && r@ == inline_text(
                    minus,
                    plus,
                    similar_word_changes(trim(old@), trim(new@)),
                    removed,
                    added,
                    label,
                ),
    {
        let o = string_of(&trim_chars(&chars_of(old)));
        let n = string_of(&trim_chars(&chars_of(new)));
        let changes = word_changes(o.as_str(), n.as_str());
        let (removed, added) = word_parts(&changes);
        let minus = red("-");
        let plus = green("+");
        let label = format_security_status(status, self.show_security_feedback);
        render_inline_diff(minus.as_str(), plus.as_str(), &changes, &removed, &added, label.as_str())
    }
}

} // verus!
