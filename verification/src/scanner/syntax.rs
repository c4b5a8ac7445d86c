//! The YAML syntax tree, as far as the scanner reads it.
//!
//! The `tree-sitter` crate, with the `tree-sitter-yaml` grammar, parses a file
//! and runs a query over it; the scanner only sees the captured nodes: their
//! capture name, text, byte range and start position.
use crate::text::{byte_to_char_pos, char_pos, chars_of, is_boundary, lemma_byte_pos_order, lemma_char_pos, string_of, slice_chars};
use tree_sitter::{Language, Parser, Query, QueryCursor, StreamingIterator};
use vstd::prelude::*;

verus! {

/// A captured node: capture name, text, start and end byte, row and column
/// (0-based) of its start.
pub type CaptureView = (Seq<char>, Seq<char>, usize, usize, usize, usize);

/// A node captured by a query.
#[derive(Debug, Clone)]
pub struct Capture {
    /// The name of the capture (`@key` is `key`).
    pub name: String,
    /// The text of the node.
    pub text: String,
    /// Byte offset where the node starts.
    pub start: usize,
    /// Byte offset where the node ends.
    pub end: usize,
    /// Row (0-based) where the node starts.
    pub row: usize,
    /// Column (0-based, in bytes) where the node starts.
    pub column: usize,
}

impl View for Capture {
    type V = (Seq<char>, Seq<char>, usize, usize, usize, usize);

    open spec fn view(&self) -> (Seq<char>, Seq<char>, usize, usize, usize, usize) {
        (self.name@, self.text@, self.start, self.end, self.row, self.column)
    }
}

/// The views of the matches of a query.
pub open spec fn matches_view(ms: Seq<Vec<Capture>>) -> Seq<Seq<CaptureView>> {
    ms.map_values(|m: Vec<Capture>| m@.map_values(|c: Capture| c@))
}

/// A raw capture: capture index, start and end byte, row and column.
pub type RawCapture = (u32, usize, usize, usize, usize);

/// The capture names of the tree-sitter query `query` for the YAML grammar,
/// by capture index; `None` when the query does not compile.
pub uninterp spec fn yaml_capture_names(query: Seq<char>) -> Option<Seq<Seq<char>>>;

/// Compiles the tree-sitter query `query` for the YAML grammar
/// (`Query::new`) and reads its capture names (`Query::capture_names`).
/// Trusted: the names are the crate's, named by `yaml_capture_names`.
#[verifier::external_body]
fn capture_names(query: &str) -> (r: Option<Vec<String>>)
    ensures
        match r {
            Some(ns) => yaml_capture_names(query@) == Some(ns@.map_values(|s: String| s@)),
            None => yaml_capture_names(query@) is None,
        },
{
    let lang: Language = tree_sitter_yaml::LANGUAGE.into();
    let q = Query::new(&lang, query).ok()?;
    Some(q.capture_names().iter().map(|n| n.to_string()).collect())
}

/// The matches, in order, of the tree-sitter query `query` (for the YAML
/// grammar) on the syntax tree of `content`, each with its captures in order;
/// `None` when the query does not compile.
pub uninterp spec fn yaml_query_raw(query: Seq<char>, content: Seq<char>) -> Option<Seq<Seq<(u32, usize, usize, usize, usize)>>>;

/// Parses `content` with the `tree-sitter-yaml` grammar and runs the
/// tree-sitter query `query` over the whole tree (`Parser::parse`,
/// `QueryCursor::matches`), reading each capture's index, byte range and start
/// position. Trusted: the matches are the crate's, named by `yaml_query_raw`.
#[verifier::external_body]
fn yaml_query(query: &str, content: &str) -> (r: Option<Vec<Vec<(u32, usize, usize, usize, usize)>>>)
    ensures
        match r {
            Some(x) => yaml_query_raw(query@, content@) == Some(x@.map_values(|m: Vec<(u32, usize, usize, usize, usize)>| m@)),
            None => yaml_query_raw(query@, content@) is None,
        },
{
    let lang: Language = tree_sitter_yaml::LANGUAGE.into();
    let q = Query::new(&lang, query).ok()?;
    let mut parser = Parser::new();
    parser.set_language(&lang).ok()?;
    let tree = parser.parse(content, None)?;
    let mut cursor = QueryCursor::new();
    let mut found = cursor.matches(&q, tree.root_node(), content.as_bytes());
    let mut out = Vec::new();
    while let Some(m) = found.next() {
        out.push(m.captures.iter().map(|c| (c.index, c.node.start_byte(), c.node.end_byte(), c.node.start_position().row, c.node.start_position().column)).collect());
    }
    Some(out)
}

/// The text of a node: the characters between its byte offsets, or empty
/// when they do not delimit characters of the content.
pub open spec fn node_text(content: Seq<char>, start: usize, end: usize) -> Seq<char> {
    if start <= end && is_boundary(content, start as int) && is_boundary(content, end as int) {
        content.subrange(char_pos(content, start as int), char_pos(content, end as int))
    } else {
        Seq::empty()
    }
}

/// The name of capture index `i` (empty for an unknown index).
pub open spec fn name_of(names: Seq<Seq<char>>, i: u32) -> Seq<char> {
    if (i as int) < names.len() {
        names[i as int]
    } else {
        Seq::empty()
    }
}

/// A raw capture read back: its name, text, range and position.
pub open spec fn capture_of(names: Seq<Seq<char>>, content: Seq<char>, x: RawCapture) -> CaptureView {
    (name_of(names, x.0), node_text(content, x.1, x.2), x.1, x.2, x.3, x.4)
}

/// The matches of `query` on `content`, with their captures read back.
pub open spec fn yaml_query_matches(query: Seq<char>, content: Seq<char>) -> Option<Seq<Seq<CaptureView>>> {
    match (yaml_capture_names(query), yaml_query_raw(query, content)) {
        (Some(names), Some(ms)) => Some(ms.map_values(|m: Seq<RawCapture>| m.map_values(|c: RawCapture| capture_of(names, content, c)))),
        _ => None,
    }
}

fn node_text_exec(content: &Vec<char>, start: usize, end: usize) -> (r: String)
    ensures
        r@ == node_text(content@, start, end),
{
    if start > end {
        return String::new();
    }
    match (byte_to_char_pos(content, start), byte_to_char_pos(content, end)) {
        (Some(a), Some(b)) => {
            proof {
                lemma_char_pos(content@, a as int, start as int);
                lemma_char_pos(content@, b as int, end as int);
                lemma_byte_pos_order(content@, a as int, b as int, start as int, end as int);
            }
            string_of(&slice_chars(content, a, b))
        },
        _ => String::new(),
    }
}

/// Runs a query on a YAML text and reads back each capture's name and text.
pub fn query_captures(query: &str, content: &str) -> (r: Option<Vec<Vec<Capture>>>)
    ensures
        match r {
            Some(ms) => yaml_query_matches(query@, content@) == Some(matches_view(ms@)),
            None => yaml_query_matches(query@, content@) is None,
        },
{
    let names = match capture_names(query) {
        Some(x) => x,
        None => return None,
    };
    let raw = match yaml_query(query, content) {
        Some(x) => x,
        None => return None,
    };
    let ghost nv = names@.map_values(|s: String| s@);
    let ghost rv = raw@.map_values(|m: Vec<RawCapture>| m@);
    let text = chars_of(content);
    let mut out: Vec<Vec<Capture>> = Vec::new();
    let mut i: usize = 0;
    while i < raw.len()
        invariant
            0 <= i <= raw.len(),
            nv == names@.map_values(|s: String| s@),
            rv == raw@.map_values(|m: Vec<RawCapture>| m@),
            text@ == content@,
            out@.len() == i,
            forall|k: int| 0 <= k < i ==> (#[trigger] out@[k])@.map_values(|c: Capture| c@) == rv[k].map_values(|c: RawCapture| capture_of(nv, content@, c)),
        decreases raw.len() - i,
    {
        let m = &raw[i];
        assert(rv[i as int] == m@);
        let mut caps: Vec<Capture> = Vec::new();
        let mut j: usize = 0;
        while j < m.len()
            invariant
                0 <= j <= m.len(),
                nv == names@.map_values(|s: String| s@),
                text@ == content@,
                caps@.len() == j,
                forall|k: int| 0 <= k < j ==> (#[trigger] caps@[k])@ == capture_of(nv, content@, m@[k]),
            decreases m.len() - j,
        {
            let x = m[j];
            let name = if (x.0 as usize) < names.len() {
                names[x.0 as usize].clone()
            } else {
                String::new()
            };
            caps.push(Capture { name, text: node_text_exec(&text, x.1, x.2), start: x.1, end: x.2, row: x.3, column: x.4 });
            j = j + 1;
        }
        assert(caps@.map_values(|c: Capture| c@) =~= m@.map_values(|c: RawCapture| capture_of(nv, content@, c)));
        out.push(caps);
        i = i + 1;
    }
    assert(matches_view(out@) =~= rv.map_values(|m: Seq<RawCapture>| m.map_values(|c: RawCapture| capture_of(nv, content@, c))));
    Some(out)
}

// ---------------------------------------------------------------------------
// Lines
// ---------------------------------------------------------------------------

/// The segments of `s` between newlines (the last one possibly empty).
pub open spec fn segments(s: Seq<char>) -> Seq<Seq<char>>
    decreases s.len(),
{
    match crate::text::first_index_of(s, '\n') {
        Some(i) => if 0 <= i < s.len() {
            seq![s.take(i)] + segments(s.skip(i + 1))
        } else {
            seq![s]
        },
        None => seq![s],
    }
}

/// A line without its trailing carriage return.
pub open spec fn strip_cr(l: Seq<char>) -> Seq<char> {
    if l.len() > 0 && l.last() == '\r' {
        l.drop_last()
    } else {
        l
    }
}

/// The lines of a text as `str::lines` yields them: split at newlines, a
/// trailing `\r` removed from each, and no empty line after a final newline.
pub open spec fn text_lines(s: Seq<char>) -> Seq<Seq<char>> {
    let segs = if s.len() == 0 {
        Seq::empty()
    } else if s.last() == '\n' {
        segments(s).drop_last()
    } else {
        segments(s)
    };
    segs.map_values(|l: Seq<char>| strip_cr(l))
}

proof fn lemma_first_index_bound(s: Seq<char>, c: char)
    ensures
        crate::text::first_index_of(s, c) matches Some(i) ==> 0 <= i < s.len() && s[i] == c,
    decreases s.len(),
{
    if s.len() > 0 && s[0] != c {
        lemma_first_index_bound(s.drop_first(), c);
    }
}

proof fn lemma_segments_last_empty(s: Seq<char>)
    requires
        s.len() > 0,
        s.last() == '\n',
    ensures
        segments(s).len() > 0,
        segments(s).last() == Seq::<char>::empty(),
    decreases s.len(),
{
    lemma_first_index_bound(s, '\n');
    assert(s[s.len() - 1] == '\n');
    assert(crate::text::first_index_of(s, '\n') is Some) by {
        crate::text::lemma_first_index_of_exists(s, '\n', s.len() - 1);
    }
    let i: int = crate::text::first_index_of(s, '\n')->0;
    assert(0 <= i < s.len());
    let rest = s.skip(i + 1);
    assert(segments(s) == seq![s.take(i)] + segments(rest));
    if i + 1 < s.len() {
        assert(rest.len() < s.len());
        assert(rest.last() == s.last());
        lemma_segments_last_empty(rest);
    } else {
        assert(rest =~= Seq::<char>::empty());
        assert(segments(rest) == seq![rest]);
    }
}

fn strip_cr_exec(l: Vec<char>) -> (r: String)
    ensures
        r@ == strip_cr(l@),
{
    if l.len() > 0 && l[l.len() - 1] == '\r' {
        let s = slice_chars(&l, 0, l.len() - 1);
        assert(s@ =~= l@.drop_last());
        string_of(&s)
    } else {
        string_of(&l)
    }
}

/// The lines of a text (see [`text_lines`]).
pub fn lines_of(text: &str) -> (r: Vec<String>)
    ensures
        r@.map_values(|l: String| l@) == text_lines(text@),
{
    let v = chars_of(text);
    let mut out: Vec<String> = Vec::new();
    let ghost mut segs: Seq<Seq<char>> = Seq::empty();
    let mut start: usize = 0;
    let mut i: usize = 0;
    assert(v@.skip(0) =~= v@);
    // Each newline closes a segment; `segs` are the segments closed so far.
    while i < v.len()
        invariant
            0 <= start <= i <= v.len(),
            segs + segments(v@.skip(start as int)) == segments(v@),
            forall|j: int| start <= j < i ==> #[trigger] v@[j] != '\n',
            start > 0 ==> v@[start - 1] == '\n',
            out@.map_values(|l: String| l@) == segs.map_values(|l: Seq<char>| strip_cr(l)),
        decreases v.len() - i,
    {
        if v[i] == '\n' {
            let ghost rest = v@.skip(start as int);
            proof {
                crate::text::lemma_first_index_of(rest, '\n', i - start);
                assert forall|j: int| 0 <= j < i - start implies #[trigger] rest[j] != '\n' by {
                    assert(rest[j] == v@[start + j]);
                }
                assert(rest.take(i - start) =~= v@.subrange(start as int, i as int));
                assert(rest.skip(i - start + 1) =~= v@.skip(i + 1));
                assert(segments(rest) == seq![rest.take(i - start)] + segments(rest.skip(i - start + 1)));
            }
            let seg = slice_chars(&v, start, i);
            let ghost before = out@.map_values(|l: String| l@);
            out.push(strip_cr_exec(seg));
            proof {
                assert(out@.map_values(|l: String| l@) =~= before.push(strip_cr(v@.subrange(start as int, i as int))));
                let old_segs = segs;
                segs = segs.push(v@.subrange(start as int, i as int));
                assert(segs + segments(v@.skip(i + 1)) =~= old_segs + (seq![v@.subrange(start as int, i as int)] + segments(v@.skip(i + 1))));
                assert(segs.map_values(|l: Seq<char>| strip_cr(l)) =~= old_segs.map_values(|l: Seq<char>| strip_cr(l)).push(strip_cr(v@.subrange(start as int, i as int))));
            }
            start = i + 1;
        }
        i = i + 1;
    }
    // The last segment runs to the end of the text.
    let ghost rest = v@.skip(start as int);
    proof {
        crate::text::lemma_first_index_of(rest, '\n', rest.len() as int);
        assert forall|j: int| 0 <= j < rest.len() implies #[trigger] rest[j] != '\n' by {
            assert(rest[j] == v@[start + j]);
        }
        assert(segments(rest) == seq![rest]);
    }
    if start < v.len() {
        let seg = slice_chars(&v, start, v.len());
        let ghost before = out@.map_values(|l: String| l@);
        out.push(strip_cr_exec(seg));
        proof {
            assert(seg@ =~= rest);
            assert(out@.map_values(|l: String| l@) =~= before.push(strip_cr(rest)));
            assert(v@.last() != '\n') by {
                assert(v@.last() == rest[rest.len() - 1]);
            }
            assert(segs.push(rest).map_values(|l: Seq<char>| strip_cr(l)) =~= segs.map_values(|l: Seq<char>| strip_cr(l)).push(strip_cr(rest)));
            assert(segs + seq![rest] =~= segs.push(rest));
        }
    } else {
        proof {
            assert(rest =~= Seq::<char>::empty());
            if v@.len() > 0 {
                // The text ends with the newline that closed the last segment.
                assert(v@[v@.len() - 1] == '\n');
                lemma_segments_last_empty(v@);
                assert(segments(v@) =~= segs + seq![rest]);
                assert(segments(v@).drop_last() =~= segs);
            } else {
                assert(segs + seq![rest] == segments(v@));
                assert(segs.len() == 0);
            }
        }
    }
    out
}

} // verus!
