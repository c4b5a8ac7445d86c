//! Surgical rewriting of a single dependency reference inside a YAML text.
use crate::domain::update::{is_sha, is_sha_exec, opt_view, UpdateResult};
use crate::error::PinnerError;
use crate::pattern::{regex_find, regex_find_span, version_comment_pattern, version_comment_regex, well_placed};
use crate::text::{byte_to_char_pos, char_pos, is_byte_pos, chars_eq, chars_of, extend_chars, is_boundary, leading_ws, lemma_char_pos, slice_chars, string_of, trim, trim_chars, trim_start, trim_start_chars, ws_prefix_len};
use vstd::prelude::*;

verus! {

// ---------------------------------------------------------------------------
// Line structure of a text
// ---------------------------------------------------------------------------

/// Position of the first `'\n'` at or after `i`, or the length of `s`.
pub open spec fn next_newline(s: Seq<char>, i: int) -> int
    decreases s.len() - i,
{
    if i < 0 || i >= s.len() {
        s.len() as int
    } else if s[i] == '\n' {
        i
    } else {
        next_newline(s, i + 1)
    }
}

pub proof fn lemma_next_newline_bounds(s: Seq<char>, i: int)
    requires
        0 <= i <= s.len(),
    ensures
        i <= next_newline(s, i) <= s.len(),
    decreases s.len() - i,
{
    if i < s.len() && s[i] != '\n' {
        lemma_next_newline_bounds(s, i + 1);
    }
}

pub fn next_newline_exec(v: &Vec<char>, i: usize) -> (r: usize)
    requires
        i <= v.len(),
    ensures
        r == next_newline(v@, i as int),
        i <= r <= v.len(),
{
    let mut j = i;
    while j < v.len() && v[j] != '\n'
        invariant
            i <= j <= v.len(),
            next_newline(v@, i as int) == next_newline(v@, j as int),
        decreases v.len() - j,
    {
        j = j + 1;
    }
    j
}

/// Positions of all `'\n'` characters of `s`, in order.
pub open spec fn newline_positions(s: Seq<char>) -> Seq<int>
    decreases s.len(),
{
    if s.len() == 0 {
        Seq::empty()
    } else if s.last() == '\n' {
        newline_positions(s.drop_last()).push(s.len() - 1)
    } else {
        newline_positions(s.drop_last())
    }
}

/// Number of lines of `s` that the line-start table records (one more than the
/// number of newlines).
pub open spec fn line_count(s: Seq<char>) -> int {
    newline_positions(s).len() + 1int
}

/// Position where (0-based) line `p` of `s` starts.
pub open spec fn line_start(s: Seq<char>, p: int) -> int {
    if p == 0 {
        0
    } else {
        newline_positions(s)[p - 1] + 1
    }
}

pub proof fn lemma_newline_positions_valid(s: Seq<char>)
    ensures
        forall|j: int|
            0 <= j < newline_positions(s).len() ==> 0 <= #[trigger] newline_positions(s)[j]
                < s.len() && s[newline_positions(s)[j]] == '\n',
        forall|j: int, k: int|
            0 <= j < k < newline_positions(s).len() ==> #[trigger] newline_positions(s)[j]
                < #[trigger] newline_positions(s)[k],
    decreases s.len(),
{
    if s.len() > 0 {
        let t = s.drop_last();
        lemma_newline_positions_valid(t);
        let n = newline_positions(s);
        let m = newline_positions(t);
        assert forall|j: int| 0 <= j < m.len() implies n[j] == m[j] && s[m[j]] == t[m[j]] by {}
        assert forall|j: int|
            0 <= j < n.len() implies 0 <= #[trigger] n[j] < s.len() && s[n[j]] == '\n' by {
            if j < m.len() {
                assert(n[j] == m[j]);
            }
        }
        assert forall|j: int, k: int| 0 <= j < k < n.len() implies #[trigger] n[j] < #[trigger] n[k] by {
            if k < m.len() {
                assert(n[j] == m[j] && n[k] == m[k]);
            } else {
                assert(n[j] == m[j]);
            }
        }
    }
}

/// The positions of all newlines of `v`.
pub fn newline_positions_exec(v: &Vec<char>) -> (r: Vec<usize>)
    ensures
        r@.len() == newline_positions(v@).len(),
        forall|j: int| 0 <= j < r@.len() ==> r@[j] as int == newline_positions(v@)[j],
{
    let mut r: Vec<usize> = Vec::new();
    let mut i: usize = 0;
    while i < v.len()
        invariant
            0 <= i <= v.len(),
            r@.len() == newline_positions(v@.take(i as int)).len(),
            forall|j: int|
                0 <= j < r@.len() ==> r@[j] as int == newline_positions(v@.take(i as int))[j],
        decreases v.len() - i,
    {
        assert(v@.take(i + 1).drop_last() =~= v@.take(i as int));
        if v[i] == '\n' {
            r.push(i);
        }
        i = i + 1;
    }
    assert(v@.take(v.len() as int) =~= v@);
    r
}

// ---------------------------------------------------------------------------
// The specification of an update
// ---------------------------------------------------------------------------

/// A comment with its leading version (e.g. `# v1`) removed, if it has one.
pub open spec fn strip_version(s: Seq<char>) -> Seq<char> {
    match regex_find_span(version_comment_pattern(), s) {
        Some(span) => trim_start(s.skip(char_pos(s, span.1 as int))),
        None => s,
    }
}

/// The part of the existing trailing comment that survives an update.
pub open spec fn kept_comment(text: Seq<char>, end: int, comment: Option<Seq<char>>) -> Seq<char> {
    let fs1 = match comment {
        Some(pc) => strip_version(pc),
        None => strip_version(trim_start(text.subrange(end, next_newline(text, end)))),
    };
    if fs1.len() > 0 && fs1[0] == '#' {
        trim_start(fs1.drop_first())
    } else {
        fs1
    }
}

/// The version comment written after a new reference (` # v3`), unless the tag
/// is itself a SHA or digest.
pub open spec fn tag_comment(new_tag: Option<Seq<char>>) -> Seq<char> {
    match new_tag {
        Some(t) => if is_sha(t) {
            Seq::empty()
        } else {
            " # "@ + t
        },
        None => Seq::empty(),
    }
}

/// The surviving comment, re-attached after the version comment.
pub open spec fn extra_suffix(kept: Seq<char>) -> Seq<char> {
    if kept.len() == 0 {
        Seq::empty()
    } else if kept[0] == '#' {
        " "@ + kept
    } else {
        " # "@ + kept
    }
}

/// The separator between a name and its reference: `:` for Bitbucket pipes,
/// `@` otherwise.
pub open spec fn separator(key: Seq<char>) -> Seq<char> {
    if key == "pipe"@ {
        ":"@
    } else {
        "@"@
    }
}

/// The new value written in place of the dependency.
pub open spec fn new_value(
    key: Seq<char>,
    action: Seq<char>,
    sha: Seq<char>,
    new_tag: Option<Seq<char>>,
    kept: Seq<char>,
) -> Seq<char> {
    if key == "ref"@ {
        sha + tag_comment(new_tag) + extra_suffix(kept)
    } else {
        action + separator(key) + sha + tag_comment(new_tag) + extra_suffix(kept)
    }
}

/// The bounds of the line above (1-based) line `line`, if the text has it.
pub open spec fn prev_line_bounds(text: Seq<char>, line: int) -> Option<(int, int)> {
    if line >= 2 && line - 2 < line_count(text) {
        let p = line - 2;
        Some(
            (
                line_start(text, p),
                if p + 1 < line_count(text) {
                    line_start(text, p + 1)
                } else {
                    text.len() as int
                },
            ),
        )
    } else {
        None
    }
}

/// Start of the line above (1-based) line `line`.
pub open spec fn prev_start(text: Seq<char>, line: int) -> int {
    let b = prev_line_bounds(text, line)->0;
    b.0
}

/// End of the line above (1-based) line `line`.
pub open spec fn prev_end(text: Seq<char>, line: int) -> int {
    let b = prev_line_bounds(text, line)->0;
    b.1
}

/// The line above the dependency is a version comment (`# v1`) that is
/// rewritten to name the new tag.
pub open spec fn rewrites_prev(text: Seq<char>, line: int, new_tag: Option<Seq<char>>) -> bool {
    match prev_line_bounds(text, line) {
        Some(b) => {
            let tr = trim(text.subrange(b.0, b.1));
            &&& tr.len() > 0
            &&& tr[0] == '#'
            &&& regex_find_span(version_comment_pattern(), tr) is Some
            &&& new_tag matches Some(t)
            &&& !is_sha(t)
        },
        None => false,
    }
}

/// The rewritten version comment line, followed by the text up to the value.
pub open spec fn rewritten_prefix(text: Seq<char>, line: int, t: Seq<char>, start: int) -> Seq<
    char,
> {
    let b = prev_line_bounds(text, line)->0;
    let prev = text.subrange(b.0, b.1);
    prev.take(ws_prefix_len(prev) as int) + "# "@ + t + (if prev.len() > 0 && prev.last()
        == '\n' {
        "\n"@
    } else {
        Seq::empty()
    }) + text.subrange(b.1, start)
}

/// Character position of the value's start.
pub open spec fn start_pos(text: Seq<char>, res: UpdateResult) -> int {
    char_pos(text, res.task.start as int)
}

/// Character position of the value's end.
pub open spec fn end_pos(text: Seq<char>, res: UpdateResult) -> int {
    char_pos(text, res.task.end as int)
}

/// Where the replaced region starts.
pub open spec fn replace_from(text: Seq<char>, res: UpdateResult) -> int {
    if rewrites_prev(text, res.task.line as int, opt_view(res.new_tag)) {
        prev_start(text, res.task.line as int)
    } else {
        start_pos(text, res)
    }
}

/// Where the replaced region ends: the end of the value's line.
pub open spec fn replace_to(text: Seq<char>, res: UpdateResult) -> int {
    next_newline(text, end_pos(text, res))
}

/// The text that replaces the region.
pub open spec fn replacement(text: Seq<char>, res: UpdateResult) -> Seq<char> {
    let kept = kept_comment(text, end_pos(text, res), opt_view(res.task.comment));
    let value = new_value(
        res.task.key@,
        res.task.action.0@,
        res.new_sha.text(),
        opt_view(res.new_tag),
        kept,
    );
    if rewrites_prev(text, res.task.line as int, opt_view(res.new_tag)) {
        rewritten_prefix(text, res.task.line as int, opt_view(res.new_tag)->0, start_pos(text, res))
            + value
    } else {
        value
    }
}

/// The region that is replaced.
pub open spec fn replaced(text: Seq<char>, res: UpdateResult) -> Seq<char> {
    text.subrange(replace_from(text, res), replace_to(text, res))
}

/// The offsets of the task lie on character boundaries of the text, the value
/// starts before the end of its line, and a rewritten comment line lies above
/// the value: exactly the inputs on which the update does not panic.
pub open spec fn update_applicable(text: Seq<char>, res: UpdateResult) -> bool {
    &&& is_boundary(text, res.task.start as int)
    &&& is_boundary(text, res.task.end as int)
    &&& start_pos(text, res) <= replace_to(text, res)
    &&& rewrites_prev(text, res.task.line as int, opt_view(res.new_tag)) ==> prev_end(
        text,
        res.task.line as int,
    ) <= start_pos(text, res)
}

/// An update leaves the text before its region as it was. Updates applied
/// from the last offset to the first therefore find the offsets of the ones
/// still to come unchanged.
pub proof fn lemma_update_keeps_prefix(text: Seq<char>, res: UpdateResult)
    requires
        update_applicable(text, res),
    ensures
        0 <= replace_from(text, res) <= text.len(),
        updated_text(text, res).take(replace_from(text, res)) == text.take(replace_from(text, res)),
{
    let k = choose|k: int| is_byte_pos(text, k, res.task.start as int);
    lemma_char_pos(text, k, res.task.start as int);
    if rewrites_prev(text, res.task.line as int, opt_view(res.new_tag)) {
        lemma_newline_positions_valid(text);
        let p = res.task.line as int - 2;
        if p > 0 {
            assert(0 <= newline_positions(text)[p - 1] < text.len());
        }
    }
    let from = replace_from(text, res);
    if replaced(text, res) != replacement(text, res) {
        assert((text.take(from) + replacement(text, res) + text.skip(replace_to(text, res))).take(from) =~= text.take(from));
    }
}

/// The text after the update (unchanged when the replacement equals the
/// replaced region).
pub open spec fn updated_text(text: Seq<char>, res: UpdateResult) -> Seq<char> {
    if replaced(text, res) == replacement(text, res) {
        text
    } else {
        text.take(replace_from(text, res)) + replacement(text, res) + text.skip(
            replace_to(text, res),
        )
    }
}

// ---------------------------------------------------------------------------
// Executable pieces
// ---------------------------------------------------------------------------

fn strip_version_exec(s: &Vec<char>) -> (r: Vec<char>)
    ensures
        r@ == strip_version(s@),
{
    let st = string_of(s);
    match regex_find(version_comment_regex(), st.as_str()) {
        Some(span) => {
            match byte_to_char_pos(s, span.1) {
                Some(k) => {
                    proof {
                        lemma_char_pos(s@, k as int, span.1 as int);
                    }
                    let rest = slice_chars(s, k, s.len());
                    assert(rest@ =~= s@.skip(k as int));
                    trim_start_chars(&rest)
                },
                None => {
                    proof {
                        assert(well_placed(s@, span));
                    }
                    s.clone()
                },
            }
        },
        None => s.clone(),
    }
}

fn kept_comment_exec(text: &Vec<char>, end: usize, comment: &Option<String>) -> (r: Vec<char>)
    requires
        end <= text.len(),
    ensures
        r@ == kept_comment(text@, end as int, opt_view(*comment)),
{
    let fs1 = match comment {
        Some(pc) => strip_version_exec(&chars_of(pc.as_str())),
        None => {
            let le = next_newline_exec(text, end);
            let suffix = slice_chars(text, end, le);
            strip_version_exec(&trim_start_chars(&suffix))
        },
    };
    if fs1.len() > 0 && fs1[0] == '#' {
        let rest = slice_chars(&fs1, 1, fs1.len());
        assert(rest@ =~= fs1@.drop_first());
        trim_start_chars(&rest)
    } else {
        fs1
    }
}

fn tag_comment_exec(new_tag: &Option<String>) -> (r: Vec<char>)
    ensures
        r@ == tag_comment(opt_view(*new_tag)),
{
    match new_tag {
        Some(t) => {
            let tv = chars_of(t.as_str());
            if is_sha_exec(&tv) {
                Vec::new()
            } else {
                let mut r = chars_of(" # ");
                extend_chars(&mut r, &tv);
                r
            }
        },
        None => Vec::new(),
    }
}

fn extra_suffix_exec(kept: &Vec<char>) -> (r: Vec<char>)
    ensures
        r@ == extra_suffix(kept@),
{
    if kept.len() == 0 {
        Vec::new()
    } else if kept[0] == '#' {
        let mut r = chars_of(" ");
        extend_chars(&mut r, kept);
        r
    } else {
        let mut r = chars_of(" # ");
        extend_chars(&mut r, kept);
        r
    }
}

fn new_value_exec(
    key: &Vec<char>,
    action: &Vec<char>,
    sha: &Vec<char>,
    new_tag: &Option<String>,
    kept: &Vec<char>,
) -> (r: Vec<char>)
    ensures
        r@ == new_value(key@, action@, sha@, opt_view(*new_tag), kept@),
{
    let tc = tag_comment_exec(new_tag);
    let ex = extra_suffix_exec(kept);
    if chars_eq(key, &chars_of("ref")) {
        let mut r = sha.clone();
        extend_chars(&mut r, &tc);
        extend_chars(&mut r, &ex);
        assert(r@ =~= sha@ + tag_comment(opt_view(*new_tag)) + extra_suffix(kept@));
        r
    } else {
        let mut r = action.clone();
        if chars_eq(key, &chars_of("pipe")) {
            extend_chars(&mut r, &chars_of(":"));
        } else {
            extend_chars(&mut r, &chars_of("@"));
        }
        extend_chars(&mut r, sha);
        extend_chars(&mut r, &tc);
        extend_chars(&mut r, &ex);
        r
    }
}

/// The bounds of the line above (1-based) `line`, computed from the newline table.
fn prev_line_bounds_exec(text: &Vec<char>, nls: &Vec<usize>, line: usize) -> (r: Option<
    (usize, usize),
>)
    requires
        nls@.len() == newline_positions(text@).len(),
        forall|j: int| 0 <= j < nls@.len() ==> nls@[j] as int == newline_positions(text@)[j],
    ensures
        r matches Some(b) ==> prev_line_bounds(text@, line as int) == Some((b.0 as int, b.1 as int)),
        r is None ==> prev_line_bounds(text@, line as int) is None,
        r matches Some(b) ==> b.0 <= b.1 <= text.len(),
{
    proof {
        lemma_newline_positions_valid(text@);
    }
    if line >= 2 && line - 2 <= nls.len() {
        let p = line - 2;
        let st = if p == 0 {
            0
        } else {
            assert(nls@[p - 1] as int == newline_positions(text@)[p - 1]);
            assert(0 <= newline_positions(text@)[p - 1] < text@.len());
            let x = nls[p - 1];
            assert(x < text.len());
            x + 1
        };
        let en = if p < nls.len() {
            assert(nls@[p as int] as int == newline_positions(text@)[p as int]);
            assert(0 <= newline_positions(text@)[p as int] < text@.len());
            let x = nls[p];
            assert(x < text.len());
            x + 1
        } else {
            text.len()
        };
        Some((st, en))
    } else {
        None
    }
}

/// Whether an update fits a text (see [`update_applicable`]): the check to
/// make before [`apply_update`].
pub fn update_fits(content: &str, res: &UpdateResult) -> (r: bool)
    ensures
        r == update_applicable(content@, *res),
{
    let text = chars_of(content);
    let (sk, ek) = match (byte_to_char_pos(&text, res.task.start), byte_to_char_pos(&text, res.task.end)) {
        (Some(a), Some(b)) => (a, b),
        _ => return false,
    };
    proof {
        lemma_char_pos(text@, sk as int, res.task.start as int);
        lemma_char_pos(text@, ek as int, res.task.end as int);
    }
    let le = next_newline_exec(&text, ek);
    if sk > le {
        return false;
    }
    let nls = newline_positions_exec(&text);
    if let Some(b) = prev_line_bounds_exec(&text, &nls, res.task.line) {
        let prev = slice_chars(&text, b.0, b.1);
        let tr = trim_chars(&prev);
        if tr.len() > 0 && tr[0] == '#' {
            let trs = string_of(&tr);
            if regex_find(version_comment_regex(), trs.as_str()).is_some() {
                if let Some(nt) = &res.new_tag {
                    let ntv = chars_of(nt.as_str());
                    if !is_sha_exec(&ntv) {
                        assert(rewrites_prev(text@, res.task.line as int, opt_view(res.new_tag)));
                        return b.1 <= sk;
                    }
                }
            }
        }
    }
    assert(!rewrites_prev(text@, res.task.line as int, opt_view(res.new_tag)));
    true
}

/// Applies an update to the text of a YAML file.
///
/// The dependency's value, and the rest of its line, is replaced by the new
/// reference: `name@sha` (`name:sha` for Bitbucket pipes, the bare SHA for
/// GitLab `ref`), followed by the symbolic tag as a comment (` # v3`) unless the
/// tag is itself a SHA, followed by whatever part of the existing comment is not
/// a version. A version-only comment on the line above is rewritten to the new
/// tag. Returns the replaced and replacing text, or `None` (leaving the text
/// unchanged) when they are equal. The update itself never fails.
pub fn apply_update(content: &mut String, res: &UpdateResult) -> (r: Result<Option<(String, String)>, PinnerError>)
    requires
        update_applicable(old(content)@, *res),
    ensures
        r is Ok,
        final(content)@ == updated_text(old(content)@, *res),
        r matches Ok(o) ==> (o is None <==> replaced(old(content)@, *res) == replacement(old(content)@, *res)),
        r matches Ok(Some(p)) ==> p.0@ == replaced(old(content)@, *res) && p.1@ == replacement(
            old(content)@,
            *res,
        ),
        r matches Ok(None) ==> final(content)@ == old(content)@,
        r matches Ok(Some(p)) ==> {
            &&& p.0@ != p.1@
            &&& 0 <= replace_from(old(content)@, *res) <= start_pos(old(content)@, *res)
            &&& replace_to(old(content)@, *res) == next_newline(old(content)@, end_pos(old(content)@, *res))
            &&& p.0@ == old(content)@.subrange(replace_from(old(content)@, *res), replace_to(old(content)@, *res))
            &&& final(content)@ == old(content)@.take(replace_from(old(content)@, *res)) + p.1@ + old(content)@.skip(
                replace_to(old(content)@, *res),
            )
        },
{
    let ghost c0 = content@;
    let text = chars_of(content.as_str());
    let sk = byte_to_char_pos(&text, res.task.start);
    let ek = byte_to_char_pos(&text, res.task.end);
    let (sk, ek) = match (sk, ek) {
        (Some(a), Some(b)) => (a, b),
        _ => {
            return Ok(None);  // unreachable: both offsets are boundaries
        },
    };
    proof {
        lemma_char_pos(text@, sk as int, res.task.start as int);
        lemma_char_pos(text@, ek as int, res.task.end as int);
    }
    let le = next_newline_exec(&text, ek);
    let kept = kept_comment_exec(&text, ek, &res.task.comment);
    let key = chars_of(res.task.key.as_str());
    let action = chars_of(res.task.action.0.as_str());
    let sha_s = res.new_sha.to_string();
    let sha = chars_of(sha_s.as_str());
    let value = new_value_exec(&key, &action, &sha, &res.new_tag, &kept);

    let nls = newline_positions_exec(&text);
    let mut from = sk;
    let mut prefix: Vec<char> = Vec::new();
    let mut rewrite = false;
    if let Some(b) = prev_line_bounds_exec(&text, &nls, res.task.line) {
        let prev = slice_chars(&text, b.0, b.1);
        let tr = trim_chars(&prev);
        if tr.len() > 0 && tr[0] == '#' {
            let trs = string_of(&tr);
            if regex_find(version_comment_regex(), trs.as_str()).is_some() {
                if let Some(nt) = &res.new_tag {
                    let ntv = chars_of(nt.as_str());
                    if !is_sha_exec(&ntv) {
                        rewrite = true;
                        let ind = leading_ws(&prev, 0, prev.len());
                        assert(prev@.subrange(0, prev@.len() as int) =~= prev@);
                        prefix = slice_chars(&prev, 0, ind);
                        assert(prefix@ =~= prev@.take(ind as int));
                        extend_chars(&mut prefix, &chars_of("# "));
                        extend_chars(&mut prefix, &ntv);
                        if prev.len() > 0 && prev[prev.len() - 1] == '\n' {
                            extend_chars(&mut prefix, &chars_of("\n"));
                        }
                        let mid = slice_chars(&text, b.1, sk);
                        extend_chars(&mut prefix, &mid);
                        from = b.0;
                    }
                }
            }
        }
    }
    assert(rewrite == rewrites_prev(text@, res.task.line as int, opt_view(res.new_tag)));
    let mut new_text = prefix;
    extend_chars(&mut new_text, &value);
    assert(new_text@ =~= replacement(c0, *res));
    assert(from as int == replace_from(c0, *res));
    let old_text = slice_chars(&text, from, le);
    if chars_eq(&old_text, &new_text) {
        return Ok(None);
    }
    let mut out = slice_chars(&text, 0, from);
    extend_chars(&mut out, &new_text);
    let tail = slice_chars(&text, le, text.len());
    extend_chars(&mut out, &tail);
    proof {
        assert(text@.subrange(0, from as int) =~= text@.take(from as int));
        assert(text@.subrange(le as int, text@.len() as int) =~= text@.skip(le as int));
    }
    *content = string_of(&out);
    Ok(Some((string_of(&old_text), string_of(&new_text))))
}

} // verus!
