//! Reading the fields a request needs from the JSON body of its reply, with
//! `serde_json`.
use crate::resolver::forges::{reading_view, values_view, Reading, ReadingView, ValuesView};
use crate::text::{concat, decimal, usize_text};
use vstd::prelude::*;

verus! {

/// The error `serde_json` reports for a text that is not JSON, rendered;
/// `None` for a JSON text.
pub uninterp spec fn json_error_text(body: Seq<char>) -> Option<Seq<char>>;

/// The string at a JSON pointer of a JSON text, as `serde_json`'s
/// `Value::pointer` and `Value::as_str` find it; `None` when the text is not
/// JSON or the value there is absent or not a string.
pub uninterp spec fn json_string_at(body: Seq<char>, pointer: Seq<char>) -> Option<Seq<char>>;

/// The length of the array at a JSON pointer of a JSON text; `None` when the
/// text is not JSON or the value there is absent or not an array.
pub uninterp spec fn json_array_len(body: Seq<char>, pointer: Seq<char>) -> Option<usize>;

/// Parses a text with `serde_json::from_str` into a `serde_json::Value`.
/// Trusted: the rendered error is the crate's, named by `json_error_text`.
#[verifier::external_body]
pub(crate) fn json_error(body: &str) -> (r: Option<String>)
    ensures
        match r {
            Some(e) => json_error_text(body@) == Some(e@),
            None => json_error_text(body@) is None,
        },
{
    serde_json::from_str::<serde_json::Value>(body).err().map(|e| e.to_string())
}

/// Parses a text with `serde_json::from_str` and reads the string at a
/// pointer (`Value::pointer`, `Value::as_str`). Trusted: the result is the
/// crate's, named by `json_string_at`.
#[verifier::external_body]
pub(crate) fn json_str_at(body: &str, pointer: &str) -> (r: Option<String>)
    ensures
        match r {
            Some(s) => json_string_at(body@, pointer@) == Some(s@),
            None => json_string_at(body@, pointer@) is None,
        },
{
    let doc: serde_json::Value = serde_json::from_str(body).ok()?;
    doc.pointer(pointer).and_then(serde_json::Value::as_str).map(str::to_string)
}

/// Parses a text with `serde_json::from_str` and reads the length of the
/// array at a pointer (`Value::pointer`, `Value::as_array`). Trusted: the
/// result is the crate's, named by `json_array_len`.
#[verifier::external_body]
pub(crate) fn json_len_at(body: &str, pointer: &str) -> (r: Option<usize>)
    ensures
        r == json_array_len(body@, pointer@),
{
    let doc: serde_json::Value = serde_json::from_str(body).ok()?;
    doc.pointer(pointer).and_then(serde_json::Value::as_array).map(Vec::len)
}

/// Whether a JSON text holds a value other than `null` at a pointer; false
/// when the text is not JSON.
pub uninterp spec fn json_value_present(body: Seq<char>, pointer: Seq<char>) -> bool;

/// Parses a text with `serde_json::from_str` and tests whether the value at a
/// pointer is there and not `null` (`Value::pointer`, `Value::is_null`).
/// Trusted: the result is the crate's, named by `json_value_present`.
#[verifier::external_body]
pub(crate) fn json_present_at(body: &str, pointer: &str) -> (r: bool)
    ensures
        r == json_value_present(body@, pointer@),
{
    match serde_json::from_str::<serde_json::Value>(body) {
        Ok(doc) => doc.pointer(pointer).map_or(false, |v| !v.is_null()),
        Err(_) => false,
    }
}

/// The pointer to `item` within the `i`-th element of the array at `list`.
pub open spec fn element_pointer(list: Seq<char>, i: int, item: Seq<char>) -> Seq<char> {
    list + "/"@ + decimal(i as nat) + item
}

/// The error when an element of a list lacks the item.
pub open spec fn missing_field(item: Seq<char>) -> Seq<char> {
    "missing field `"@ + item + "`"@
}

/// The item strings of the first `n` elements of the array at `list`, or
/// the error for an element without one.
pub open spec fn each_values(body: Seq<char>, list: Seq<char>, item: Seq<char>, n: nat) -> Result<Seq<Seq<char>>, Seq<char>>
    decreases n,
{
    if n == 0 {
        Ok(Seq::empty())
    } else {
        match each_values(body, list, item, (n - 1) as nat) {
            Err(e) => Err(e),
            Ok(vs) => match json_string_at(body, element_pointer(list, n - 1, item)) {
                Some(s) => Ok(vs.push(s)),
                None => Err(missing_field(item)),
            },
        }
    }
}

proof fn lemma_each_error_stays(body: Seq<char>, list: Seq<char>, item: Seq<char>, k: nat, m: nat)
    requires
        k <= m,
        each_values(body, list, item, k) is Err,
    ensures
        each_values(body, list, item, m) == each_values(body, list, item, k),
    decreases m - k,
{
    if k < m {
        lemma_each_error_stays(body, list, item, k, (m - 1) as nat);
    }
}

/// What a reading finds in a body: an error for a body that is not JSON;
/// else the string at the pointer (absent: none); the item strings of the
/// list's elements (none without such a list, an error for an element
/// without the item); or the string at the required pointer followed by
/// the refining one where present (none without the required one).
pub open spec fn read_values_of(body: Seq<char>, r: ReadingView) -> ValuesView {
    match json_error_text(body) {
        Some(e) => Err(e),
        None => if r.0 == 0 {
            match json_string_at(body, r.1[0]) {
                Some(s) => Ok(Some(seq![s])),
                None => Ok(None),
            }
        } else if r.0 == 1 {
            match json_array_len(body, r.1[0]) {
                None => Ok(None),
                Some(n) => match each_values(body, r.1[0], r.1[1], n as nat) {
                    Ok(vs) => Ok(Some(vs)),
                    Err(e) => Err(e),
                },
            }
        } else {
            match json_string_at(body, r.1[0]) {
                None => Ok(None),
                Some(a) => match json_string_at(body, r.1[1]) {
                    Some(b) => Ok(Some(seq![a, b])),
                    None => Ok(Some(seq![a])),
                },
            }
        },
    }
}

/// Reads the fields a reading asks for from a reply's body (see
/// [`read_values_of`]).
pub fn read_values(body: &str, reading: &Reading) -> (r: Result<Option<Vec<String>>, String>)
    ensures
        values_view(r) == read_values_of(body@, reading_view(*reading)),
{
    if let Some(e) = json_error(body) {
        return Err(e);
    }
    match reading {
        Reading::One(p) => match json_str_at(body, p.as_str()) {
            Some(s) => {
                let mut v: Vec<String> = Vec::new();
                v.push(s);
                assert(v@.map_values(|x: String| x@) =~= seq![s@]);
                Ok(Some(v))
            },
            None => Ok(None),
        },
        Reading::Each(list, item) => {
            let n = match json_len_at(body, list.as_str()) {
                Some(n) => n,
                None => return Ok(None),
            };
            let mut out: Vec<String> = Vec::new();
            assert(out@.map_values(|x: String| x@) =~= Seq::<Seq<char>>::empty());
            let mut i: usize = 0;
            while i < n
                invariant
                    0 <= i <= n,
                    reading_view(*reading) == (1u8, seq![list@, item@]),
                    json_error_text(body@) is None,
                    json_array_len(body@, list@) == Some(n),
                    each_values(body@, list@, item@, i as nat) == Ok::<Seq<Seq<char>>, Seq<char>>(out@.map_values(|x: String| x@)),
                decreases n - i,
            {
                let a = concat(list.as_str(), "/");
                let b = concat(a.as_str(), usize_text(i).as_str());
                let ptr = concat(b.as_str(), item.as_str());
                assert(ptr@ == element_pointer(list@, i as int, item@));
                match json_str_at(body, ptr.as_str()) {
                    Some(s) => {
                        let ghost prev = out@.map_values(|x: String| x@);
                        out.push(s);
                        assert(out@.map_values(|x: String| x@) =~= prev.push(s@));
                    },
                    None => {
                        proof {
                            assert(each_values(body@, list@, item@, (i + 1) as nat) == Err::<Seq<Seq<char>>, Seq<char>>(
                                missing_field(item@),
                            ));
                            lemma_each_error_stays(body@, list@, item@, (i + 1) as nat, n as nat);
                        }
                        let a = concat("missing field `", item.as_str());
                        let e = concat(a.as_str(), "`");
                        assert(e@ == missing_field(item@));
                        return Err(e);
                    },
                }
                i = i + 1;
            }
            Ok(Some(out))
        },
        Reading::Refined(req, refine) => match json_str_at(body, req.as_str()) {
            None => Ok(None),
            Some(a) => {
                let mut v: Vec<String> = Vec::new();
                v.push(a);
                match json_str_at(body, refine.as_str()) {
                    Some(b) => {
                        v.push(b);
                        assert(v@.map_values(|x: String| x@) =~= seq![v@[0]@, v@[1]@]);
                    },
                    None => {
                        assert(v@.map_values(|x: String| x@) =~= seq![v@[0]@]);
                    },
                }
                Ok(Some(v))
            },
        },
    }
}

} // verus!
