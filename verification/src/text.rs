//! Character-level text primitives used throughout the crate.
//!
//! Strings are modelled by their view, a `Seq<char>`. Byte offsets (as produced
//! by a YAML parser or a regular expression engine) are related to character
//! positions through the UTF-8 width of each character.
use vstd::prelude::*;
use vstd::std_specs::iter::IteratorSpec;

verus! {

/// The Unicode `White_Space` property, which `char::is_whitespace` tests.
pub open spec fn is_ws(c: char) -> bool {
    let u = c as u32;
    (0x09 <= u && u <= 0x0d) || u == 0x20 || u == 0x85 || u == 0xa0 || u == 0x1680
        || (0x2000 <= u && u <= 0x200a) || u == 0x2028 || u == 0x2029 || u == 0x202f
        || u == 0x205f || u == 0x3000
}

/// Executable test of the Unicode `White_Space` property.
pub fn char_is_ws(c: char) -> (r: bool)
    ensures
        r == is_ws(c),
{
    let u = c as u32;
    (0x09 <= u && u <= 0x0d) || u == 0x20 || u == 0x85 || u == 0xa0 || u == 0x1680
        || (0x2000 <= u && u <= 0x200a) || u == 0x2028 || u == 0x2029 || u == 0x202f
        || u == 0x205f || u == 0x3000
}

/// An ASCII decimal digit.
pub open spec fn is_digit(c: char) -> bool {
    '0' <= c && c <= '9'
}

/// An ASCII hexadecimal digit (either case).
pub open spec fn is_hex(c: char) -> bool {
    ('0' <= c && c <= '9') || ('a' <= c && c <= 'f') || ('A' <= c && c <= 'F')
}

pub fn char_is_digit(c: char) -> (r: bool)
    ensures
        r == is_digit(c),
{
    '0' <= c && c <= '9'
}

pub fn char_is_hex(c: char) -> (r: bool)
    ensures
        r == is_hex(c),
{
    ('0' <= c && c <= '9') || ('a' <= c && c <= 'f') || ('A' <= c && c <= 'F')
}

/// Number of bytes of the UTF-8 encoding of `c`.
pub open spec fn utf8_width(c: char) -> nat {
    let u = c as u32;
    if u < 0x80 {
        1
    } else if u < 0x800 {
        2
    } else if u < 0x10000 {
        3
    } else {
        4
    }
}

pub fn char_utf8_width(c: char) -> (r: usize)
    ensures
        r == utf8_width(c),
{
    let u = c as u32;
    if u < 0x80 {
        1
    } else if u < 0x800 {
        2
    } else if u < 0x10000 {
        3
    } else {
        4
    }
}

/// Number of bytes of the UTF-8 encoding of `s`.
pub open spec fn byte_len(s: Seq<char>) -> nat
    decreases s.len(),
{
    if s.len() == 0 {
        0
    } else {
        byte_len(s.drop_last()) + utf8_width(s.last())
    }
}

/// `b` is the byte offset at which character `k` of `s` starts (or the end of `s`).
pub open spec fn is_byte_pos(s: Seq<char>, k: int, b: int) -> bool {
    0 <= k <= s.len() && byte_len(s.take(k)) == b
}

/// Byte offset `b` falls on a character boundary of `s`.
pub open spec fn is_boundary(s: Seq<char>, b: int) -> bool {
    exists|k: int| is_byte_pos(s, k, b)
}

pub proof fn lemma_byte_len_take_step(s: Seq<char>, k: int)
    requires
        0 <= k < s.len(),
    ensures
        byte_len(s.take(k + 1)) == byte_len(s.take(k)) + utf8_width(s[k]),
{
    assert(s.take(k + 1).drop_last() =~= s.take(k));
}

pub proof fn lemma_byte_len_take_mono(s: Seq<char>, i: int, j: int)
    requires
        0 <= i <= j <= s.len(),
    ensures
        byte_len(s.take(i)) <= byte_len(s.take(j)),
        i < j ==> byte_len(s.take(i)) < byte_len(s.take(j)),
    decreases j - i,
{
    if i < j {
        lemma_byte_len_take_mono(s, i, j - 1);
        lemma_byte_len_take_step(s, j - 1);
    }
}

/// A byte offset determines at most one character position.
pub proof fn lemma_byte_pos_unique(s: Seq<char>, k1: int, k2: int, b: int)
    requires
        is_byte_pos(s, k1, b),
        is_byte_pos(s, k2, b),
    ensures
        k1 == k2,
{
    if k1 < k2 {
        lemma_byte_len_take_mono(s, k1, k2);
    } else if k2 < k1 {
        lemma_byte_len_take_mono(s, k2, k1);
    }
}

/// The character position at byte offset `b` of `s`, when `b` is a boundary.
pub open spec fn char_pos(s: Seq<char>, b: int) -> int {
    choose|k: int| is_byte_pos(s, k, b)
}

/// `char_pos` picks the unique position of a boundary.
pub proof fn lemma_char_pos(s: Seq<char>, k: int, b: int)
    requires
        is_byte_pos(s, k, b),
    ensures
        char_pos(s, b) == k,
{
    let k2 = char_pos(s, b);
    lemma_byte_pos_unique(s, k, k2, b);
}

/// Byte order and character order agree.
pub proof fn lemma_byte_pos_order(s: Seq<char>, k1: int, k2: int, b1: int, b2: int)
    requires
        is_byte_pos(s, k1, b1),
        is_byte_pos(s, k2, b2),
        b1 <= b2,
    ensures
        k1 <= k2,
{
    if k2 < k1 {
        lemma_byte_len_take_mono(s, k2, k1);
    }
}

/// Finds the character position that starts at byte offset `b`.
pub fn byte_to_char_pos(s: &Vec<char>, b: usize) -> (r: Option<usize>)
    ensures
        r matches Some(k) ==> is_byte_pos(s@, k as int, b as int),
        r is None ==> !is_boundary(s@, b as int),
{
    let mut k: usize = 0;
    let mut acc: usize = 0;
    while k < s.len()
        invariant
            0 <= k <= s.len(),
            acc == byte_len(s@.take(k as int)),
            acc <= b,
        decreases s.len() - k,
    {
        if acc == b {
            return Some(k);
        }
        let w = char_utf8_width(s[k]);
        proof {
            lemma_byte_len_take_step(s@, k as int);
        }
        if w > b - acc {
            proof {
                assert forall|j: int| #![auto] !is_byte_pos(s@, j, b as int) by {
                    if 0 <= j <= s@.len() {
                        if j <= k {
                            lemma_byte_len_take_mono(s@, j, k as int);
                        } else {
                            lemma_byte_len_take_mono(s@, k + 1, j);
                        }
                    }
                }
            }
            return None;
        }
        acc = acc + w;
        k = k + 1;
    }
    if acc == b {
        Some(k)
    } else {
        proof {
            assert(s@.take(k as int) =~= s@);
            assert forall|j: int| #![auto] !is_byte_pos(s@, j, b as int) by {
                if 0 <= j <= s@.len() {
                    lemma_byte_len_take_mono(s@, j, k as int);
                }
            }
        }
        None
    }
}

/// Collects the characters of a string slice.
pub fn str_chars(s: &str) -> (r: Vec<char>)
    ensures
        r@ == s@,
{
    let mut r: Vec<char> = Vec::new();
    for c in iter: s.chars()
        invariant
            r@ == iter.seq().take(iter.index() as int),
    {
        r.push(c);
    }
    assert(r@ =~= s@);
    r
}

/// Appends one character to a string (`String::push`). Trusted: the string
/// grows by that character, as std documents.
#[verifier::external_body]
pub(crate) fn push_char(s: &mut String, c: char)
    ensures
        final(s)@ == old(s)@.push(c),
{
    s.push(c);
}

/// Builds a string from its characters.
pub fn string_of(v: &Vec<char>) -> (r: String)
    ensures
        r@ == v@,
{
    let mut r = String::new();
    let mut i: usize = 0;
    while i < v.len()
        invariant
            0 <= i <= v.len(),
            r@ == v@.take(i as int),
        decreases v.len() - i,
    {
        push_char(&mut r, v[i]);
        assert(v@.take(i + 1) =~= v@.take(i as int).push(v@[i as int]));
        i = i + 1;
    }
    assert(v@.take(v.len() as int) =~= v@);
    r
}

/// Copies the characters in `[from, to)`.
pub fn slice_chars(v: &Vec<char>, from: usize, to: usize) -> (r: Vec<char>)
    requires
        from <= to <= v.len(),
    ensures
        r@ == v@.subrange(from as int, to as int),
{
    let mut r: Vec<char> = Vec::new();
    let mut i = from;
    while i < to
        invariant
            from <= i <= to <= v.len(),
            r@ == v@.subrange(from as int, i as int),
        decreases to - i,
    {
        r.push(v[i]);
        assert(v@.subrange(from as int, i + 1) =~= v@.subrange(from as int, i as int).push(
            v@[i as int],
        ));
        i = i + 1;
    }
    r
}

/// Appends all characters of `w` to `v`.
pub fn extend_chars(v: &mut Vec<char>, w: &Vec<char>)
    ensures
        final(v)@ == old(v)@ + w@,
{
    let mut i: usize = 0;
    while i < w.len()
        invariant
            0 <= i <= w.len(),
            v@ == old(v)@ + w@.take(i as int),
        decreases w.len() - i,
    {
        v.push(w[i]);
        assert(w@.take(i + 1) =~= w@.take(i as int).push(w@[i as int]));
        i = i + 1;
    }
    assert(w@.take(w.len() as int) =~= w@);
}

/// Character-wise equality.
pub fn chars_eq(a: &Vec<char>, b: &Vec<char>) -> (r: bool)
    ensures
        r == (a@ == b@),
{
    if a.len() != b.len() {
        return false;
    }
    let mut i: usize = 0;
    while i < a.len()
        invariant
            0 <= i <= a.len(),
            a.len() == b.len(),
            forall|j: int| 0 <= j < i ==> a@[j] == b@[j],
        decreases a.len() - i,
    {
        if a[i] != b[i] {
            return false;
        }
        i = i + 1;
    }
    assert(a@ =~= b@);
    true
}

/// `p` is a prefix of `s`.
pub open spec fn has_prefix(s: Seq<char>, p: Seq<char>) -> bool {
    p.len() <= s.len() && s.take(p.len() as int) == p
}

/// `p` is a suffix of `s`.
pub open spec fn has_suffix(s: Seq<char>, p: Seq<char>) -> bool {
    p.len() <= s.len() && s.skip(s.len() - p.len()) == p
}

/// `p` occurs in `s` starting at position `i`.
pub open spec fn occurs_at(s: Seq<char>, p: Seq<char>, i: int) -> bool {
    0 <= i && i + p.len() <= s.len() && s.subrange(i, i + p.len()) == p
}

/// `p` occurs somewhere in `s`.
pub open spec fn contains(s: Seq<char>, p: Seq<char>) -> bool {
    exists|i: int| occurs_at(s, p, i)
}

/// Tests whether `p` occurs in `v` at position `i`.
pub fn occurs_at_exec(v: &Vec<char>, p: &Vec<char>, i: usize) -> (r: bool)
    ensures
        r == occurs_at(v@, p@, i as int),
{
    if i > v.len() || p.len() > v.len() - i {
        return false;
    }
    let mut j: usize = 0;
    while j < p.len()
        invariant
            0 <= j <= p.len(),
            i + p.len() <= v.len(),
            forall|k: int| 0 <= k < j ==> v@[i + k] == p@[k],
        decreases p.len() - j,
    {
        if v[i + j] != p[j] {
            assert(v@.subrange(i as int, i + p.len())[j as int] != p@[j as int]);
            return false;
        }
        j = j + 1;
    }
    assert(v@.subrange(i as int, i + p.len()) =~= p@);
    true
}

pub fn starts_with(v: &Vec<char>, p: &Vec<char>) -> (r: bool)
    ensures
        r == has_prefix(v@, p@),
{
    let r = occurs_at_exec(v, p, 0);
    proof {
        if r {
            assert(v@.take(p@.len() as int) =~= v@.subrange(0, p@.len() as int));
        } else if p@.len() <= v@.len() {
            assert(v@.take(p@.len() as int) =~= v@.subrange(0, p@.len() as int));
        }
    }
    r
}

pub fn ends_with(v: &Vec<char>, p: &Vec<char>) -> (r: bool)
    ensures
        r == has_suffix(v@, p@),
{
    if p.len() > v.len() {
        return false;
    }
    let r = occurs_at_exec(v, p, v.len() - p.len());
    assert(v@.skip(v@.len() - p@.len()) =~= v@.subrange(v@.len() - p@.len(), v@.len() as int));
    r
}

/// Finds the first occurrence of `p` in `v`.
pub fn find_first(v: &Vec<char>, p: &Vec<char>) -> (r: Option<usize>)
    ensures
        r matches Some(i) ==> occurs_at(v@, p@, i as int) && forall|j: int|
            0 <= j < i ==> !occurs_at(v@, p@, j),
        r is None ==> !contains(v@, p@),
{
    if p.len() > v.len() {
        return None;
    }
    let last = v.len() - p.len();
    let mut i: usize = 0;
    loop
        invariant
            p.len() <= v.len(),
            last == v.len() - p.len(),
            0 <= i <= last,
            forall|j: int| 0 <= j < i ==> !occurs_at(v@, p@, j),
        decreases last - i,
    {
        if occurs_at_exec(v, p, i) {
            return Some(i);
        }
        if i == last {
            return None;
        }
        i = i + 1;
    }
}

/// Tests whether `p` occurs in `v`.
pub fn contains_exec(v: &Vec<char>, p: &Vec<char>) -> (r: bool)
    ensures
        r == contains(v@, p@),
{
    find_first(v, p).is_some()
}

/// Number of leading whitespace characters.
pub open spec fn ws_prefix_len(s: Seq<char>) -> nat
    decreases s.len(),
{
    if s.len() > 0 && is_ws(s[0]) {
        1 + ws_prefix_len(s.drop_first())
    } else {
        0
    }
}

/// Number of trailing whitespace characters.
pub open spec fn ws_suffix_len(s: Seq<char>) -> nat
    decreases s.len(),
{
    if s.len() > 0 && is_ws(s.last()) {
        1 + ws_suffix_len(s.drop_last())
    } else {
        0
    }
}

/// `str::trim_start`.
pub open spec fn trim_start(s: Seq<char>) -> Seq<char> {
    s.skip(ws_prefix_len(s) as int)
}

/// `str::trim_end`.
pub open spec fn trim_end(s: Seq<char>) -> Seq<char> {
    s.take(s.len() - ws_suffix_len(s))
}

/// `str::trim`.
pub open spec fn trim(s: Seq<char>) -> Seq<char> {
    trim_end(trim_start(s))
}

pub proof fn lemma_ws_prefix_len(s: Seq<char>, i: int)
    requires
        0 <= i <= s.len(),
        forall|j: int| 0 <= j < i ==> is_ws(#[trigger] s[j]),
        i == s.len() || !is_ws(s[i]),
    ensures
        ws_prefix_len(s) == i,
    decreases i,
{
    if i > 0 {
        lemma_ws_prefix_len(s.drop_first(), i - 1);
    }
}

pub proof fn lemma_ws_prefix_bound(s: Seq<char>)
    ensures
        ws_prefix_len(s) <= s.len(),
        forall|j: int| 0 <= j < ws_prefix_len(s) ==> is_ws(#[trigger] s[j]),
        ws_prefix_len(s) == s.len() || !is_ws(s[ws_prefix_len(s) as int]),
    decreases s.len(),
{
    if s.len() > 0 && is_ws(s[0]) {
        lemma_ws_prefix_bound(s.drop_first());
        assert forall|j: int| 0 <= j < ws_prefix_len(s) implies is_ws(#[trigger] s[j]) by {
            if j > 0 {
                assert(s[j] == s.drop_first()[j - 1]);
            }
        }
    }
}

pub proof fn lemma_ws_suffix_len(s: Seq<char>, i: int)
    requires
        0 <= i <= s.len(),
        forall|j: int| s.len() - i <= j < s.len() ==> is_ws(#[trigger] s[j]),
        i == s.len() || !is_ws(s[s.len() - i - 1]),
    ensures
        ws_suffix_len(s) == i,
    decreases i,
{
    if i > 0 {
        lemma_ws_suffix_len(s.drop_last(), i - 1);
    }
}

pub proof fn lemma_ws_suffix_bound(s: Seq<char>)
    ensures
        ws_suffix_len(s) <= s.len(),
    decreases s.len(),
{
    if s.len() > 0 && is_ws(s.last()) {
        lemma_ws_suffix_bound(s.drop_last());
    }
}

/// Number of leading whitespace characters of `v[from..to]`.
pub fn leading_ws(v: &Vec<char>, from: usize, to: usize) -> (r: usize)
    requires
        from <= to <= v.len(),
    ensures
        r == ws_prefix_len(v@.subrange(from as int, to as int)),
        r <= to - from,
{
    let ghost s = v@.subrange(from as int, to as int);
    let mut i = from;
    while i < to && char_is_ws(v[i])
        invariant
            from <= i <= to <= v.len(),
            s == v@.subrange(from as int, to as int),
            forall|j: int| 0 <= j < i - from ==> is_ws(#[trigger] s[j]),
        decreases to - i,
    {
        i = i + 1;
    }
    proof {
        lemma_ws_prefix_len(s, i - from);
    }
    i - from
}

/// Number of trailing whitespace characters of `v[from..to]`.
pub fn trailing_ws(v: &Vec<char>, from: usize, to: usize) -> (r: usize)
    requires
        from <= to <= v.len(),
    ensures
        r == ws_suffix_len(v@.subrange(from as int, to as int)),
        r <= to - from,
{
    let ghost s = v@.subrange(from as int, to as int);
    let mut i = to;
    while i > from && char_is_ws(v[i - 1])
        invariant
            from <= i <= to <= v.len(),
            s == v@.subrange(from as int, to as int),
            forall|j: int| i - from <= j < s.len() ==> is_ws(#[trigger] s[j]),
        decreases i - from,
    {
        i = i - 1;
    }
    proof {
        lemma_ws_suffix_len(s, (to - i) as int);
    }
    to - i
}

/// The characters of `v` with surrounding whitespace removed.
pub fn trim_chars(v: &Vec<char>) -> (r: Vec<char>)
    ensures
        r@ == trim(v@),
{
    let a = leading_ws(v, 0, v.len());
    assert(v@.subrange(0, v@.len() as int) =~= v@);
    let b = trailing_ws(v, a, v.len());
    assert(v@.subrange(a as int, v@.len() as int) =~= trim_start(v@));
    let r = slice_chars(v, a, v.len() - b);
    assert(r@ =~= trim(v@));
    r
}

/// The characters of `v` with leading whitespace removed.
pub fn trim_start_chars(v: &Vec<char>) -> (r: Vec<char>)
    ensures
        r@ == trim_start(v@),
{
    let a = leading_ws(v, 0, v.len());
    assert(v@.subrange(0, v@.len() as int) =~= v@);
    let r = slice_chars(v, a, v.len());
    assert(r@ =~= trim_start(v@));
    r
}

/// Characters of a string literal or slice, owned.
pub fn chars_of(s: &str) -> (r: Vec<char>)
    ensures
        r@ == s@,
{
    str_chars(s)
}

/// The concatenation of two strings.
pub fn concat(a: &str, b: &str) -> (r: String)
    ensures
        r@ == a@ + b@,
{
    let mut v = chars_of(a);
    extend_chars(&mut v, &chars_of(b));
    string_of(&v)
}

/// Character-wise equality of two strings.
pub fn str_eq(a: &str, b: &str) -> (r: bool)
    ensures
        r == (a@ == b@),
{
    chars_eq(&chars_of(a), &chars_of(b))
}

/// An owned copy of a string slice.
pub fn owned(s: &str) -> (r: String)
    ensures
        r@ == s@,
{
    string_of(&chars_of(s))
}

/// Whether the UTF-8 encoding of `s` takes exactly `n` bytes.
pub fn byte_len_is(s: &str, n: usize) -> (r: bool)
    ensures
        r == (byte_len(s@) == n),
{
    let v = chars_of(s);
    let mut total: usize = 0;
    let mut i: usize = 0;
    while i < v.len()
        invariant
            0 <= i <= v.len(),
            total == byte_len(v@.take(i as int)),
            total <= n,
            v@ == s@,
        decreases v.len() - i,
    {
        proof {
            lemma_byte_len_take_step(v@, i as int);
        }
        let w = char_utf8_width(v[i]);
        if w > n - total {
            proof {
                lemma_byte_len_take_mono(v@, i + 1, v@.len() as int);
                assert(v@.take(v@.len() as int) =~= v@);
                assert(byte_len(v@.take(i + 1)) > n);
                assert(byte_len(v@) > n);
                assert(v@ == s@);
            }
            return false;
        }
        total = total + w;
        i = i + 1;
    }
    assert(v@.take(v@.len() as int) =~= v@);
    total == n
}

/// The position of the first `c` in `s`, if any.
pub open spec fn first_index_of(s: Seq<char>, c: char) -> Option<int>
    decreases s.len(),
{
    if s.len() == 0 {
        None
    } else if s[0] == c {
        Some(0)
    } else {
        match first_index_of(s.drop_first(), c) {
            Some(i) => Some(i + 1),
            None => None,
        }
    }
}

/// The position of the last `c` in `s`, if any.
pub open spec fn last_index_of(s: Seq<char>, c: char) -> Option<int>
    decreases s.len(),
{
    if s.len() == 0 {
        None
    } else if s.last() == c {
        Some(s.len() - 1)
    } else {
        last_index_of(s.drop_last(), c)
    }
}

pub proof fn lemma_first_index_of(s: Seq<char>, c: char, i: int)
    requires
        0 <= i <= s.len(),
        forall|j: int| 0 <= j < i ==> #[trigger] s[j] != c,
        i < s.len() ==> s[i] == c,
    ensures
        first_index_of(s, c) == (if i < s.len() {
            Some(i)
        } else {
            None::<int>
        }),
    decreases i,
{
    if i > 0 {
        lemma_first_index_of(s.drop_first(), c, i - 1);
    }
}

pub proof fn lemma_last_index_of(s: Seq<char>, c: char, i: int)
    requires
        -1 <= i < s.len(),
        forall|j: int| i < j < s.len() ==> #[trigger] s[j] != c,
        i >= 0 ==> s[i] == c,
    ensures
        last_index_of(s, c) == (if i >= 0 {
            Some(i)
        } else {
            None::<int>
        }),
    decreases s.len() - i,
{
    if s.len() > 0 && i < s.len() - 1 {
        lemma_last_index_of(s.drop_last(), c, i);
    }
}

pub proof fn lemma_first_index_of_exists(s: Seq<char>, c: char, k: int)
    requires
        0 <= k < s.len(),
        s[k] == c,
    ensures
        first_index_of(s, c) is Some,
    decreases k,
{
    if s[0] != c {
        lemma_first_index_of_exists(s.drop_first(), c, k - 1);
    }
}

/// The position of the first `c` in `v`.
pub fn find_char(v: &Vec<char>, c: char) -> (r: Option<usize>)
    ensures
        match r {
            Some(i) => first_index_of(v@, c) == Some(i as int) && i < v.len(),
            None => first_index_of(v@, c) is None,
        },
{
    let mut i: usize = 0;
    while i < v.len() && v[i] != c
        invariant
            0 <= i <= v.len(),
            forall|j: int| 0 <= j < i ==> #[trigger] v@[j] != c,
        decreases v.len() - i,
    {
        i = i + 1;
    }
    proof {
        lemma_first_index_of(v@, c, i as int);
    }
    if i < v.len() {
        Some(i)
    } else {
        None
    }
}

/// The position of the last `c` in `v`.
pub fn rfind_char(v: &Vec<char>, c: char) -> (r: Option<usize>)
    ensures
        match r {
            Some(i) => last_index_of(v@, c) == Some(i as int) && i < v.len(),
            None => last_index_of(v@, c) is None,
        },
{
    let mut i: usize = v.len();
    while i > 0 && v[i - 1] != c
        invariant
            0 <= i <= v.len(),
            forall|j: int| i <= j < v.len() ==> #[trigger] v@[j] != c,
        decreases i,
    {
        i = i - 1;
    }
    proof {
        lemma_last_index_of(v@, c, i - 1);
    }
    if i > 0 {
        Some(i - 1)
    } else {
        None
    }
}

/// The decimal digits of a number.
pub open spec fn decimal(n: nat) -> Seq<char>
    decreases n,
{
    if n < 10 {
        seq![digit_char(n)]
    } else {
        decimal(n / 10).push(digit_char(n % 10))
    }
}

/// The character of a digit.
pub open spec fn digit_char(d: nat) -> char {
    if d == 0 {
        '0'
    } else if d == 1 {
        '1'
    } else if d == 2 {
        '2'
    } else if d == 3 {
        '3'
    } else if d == 4 {
        '4'
    } else if d == 5 {
        '5'
    } else if d == 6 {
        '6'
    } else if d == 7 {
        '7'
    } else if d == 8 {
        '8'
    } else {
        '9'
    }
}

fn digit_char_exec(d: usize) -> (r: char)
    requires
        d < 10,
    ensures
        r == digit_char(d as nat),
{
    if d == 0 {
        '0'
    } else if d == 1 {
        '1'
    } else if d == 2 {
        '2'
    } else if d == 3 {
        '3'
    } else if d == 4 {
        '4'
    } else if d == 5 {
        '5'
    } else if d == 6 {
        '6'
    } else if d == 7 {
        '7'
    } else if d == 8 {
        '8'
    } else {
        '9'
    }
}

/// A number written in decimal.
pub fn usize_text(n: usize) -> (r: String)
    ensures
        r@ == decimal(n as nat),
    decreases n,
{
    if n < 10 {
        let mut v: Vec<char> = Vec::new();
        v.push(digit_char_exec(n));
        assert(v@ =~= seq![digit_char(n as nat)]);
        string_of(&v)
    } else {
        let head = usize_text(n / 10);
        let mut v = chars_of(head.as_str());
        v.push(digit_char_exec(n % 10));
        string_of(&v)
    }
}

} // verus!
