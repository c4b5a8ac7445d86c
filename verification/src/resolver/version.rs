//! Relaxed semantic versions of tags, and which tag is newer.
//!
//! Tags such as `v3` or `4.1-beta` are completed to full versions (`3.0.0`,
//! `4.1.0-beta`) and parsed and compared by the `semver` crate.
use crate::text::{chars_of, concat, is_digit, slice_chars, string_of, str_eq};
use vstd::prelude::*;

verus! {

/// The view of a version: major, minor, patch, pre-release and build
/// metadata.
pub type VersionView = (u64, u64, u64, Seq<char>, Seq<char>);

/// What `semver::Version::parse` makes of a text: the parts of the version, or
/// `None` when the text is not a valid version.
pub uninterp spec fn semver_parse(s: Seq<char>) -> Option<(u64, u64, u64, Seq<char>, Seq<char>)>;

/// How `semver::Version`'s total order places `a` against `b`: negative,
/// zero or positive.
pub uninterp spec fn semver_order(a: (u64, u64, u64, Seq<char>, Seq<char>), b: (u64, u64, u64, Seq<char>, Seq<char>)) -> int;

#[verifier::external_type_specification]
#[verifier::external_body]
pub struct ExSemverVersion(semver::Version);

/// A parsed semantic version. Its fields are private: only a parse of the
/// `semver` crate makes one, so the version the crate holds and the parts
/// read back from it always agree.
pub struct Semver {
    major: u64,
    minor: u64,
    patch: u64,
    /// The pre-release part (after `-`), possibly empty.
    pre: String,
    /// The build metadata (after `+`), possibly empty.
    build: String,
    /// The version as the `semver` crate holds it.
    version: semver::Version,
}

impl View for Semver {
    type V = (u64, u64, u64, Seq<char>, Seq<char>);

    closed spec fn view(&self) -> (u64, u64, u64, Seq<char>, Seq<char>) {
        (self.major, self.minor, self.patch, self.pre@, self.build@)
    }
}

impl Semver {
    /// The major version number.
    pub fn major(&self) -> (r: u64)
        ensures
            r == self@.0,
    {
        self.major
    }

    /// The minor version number.
    pub fn minor(&self) -> (r: u64)
        ensures
            r == self@.1,
    {
        self.minor
    }

    /// The patch number.
    pub fn patch(&self) -> (r: u64)
        ensures
            r == self@.2,
    {
        self.patch
    }

    /// The pre-release part (after `-`), possibly empty.
    pub fn pre(&self) -> (r: &str)
        ensures
            r@ == self@.3,
    {
        self.pre.as_str()
    }

    /// The build metadata (after `+`), possibly empty.
    pub fn build(&self) -> (r: &str)
        ensures
            r@ == self@.4,
    {
        self.build.as_str()
    }
}

/// A version that some text parses to.
pub open spec fn is_parsed(v: VersionView) -> bool {
    exists|s: Seq<char>| semver_parse(s) == Some(v)
}

/// The order of the numeric parts alone: negative, zero or positive.
pub open spec fn triple_order(a: VersionView, b: VersionView) -> int {
    if a.0 != b.0 {
        if a.0 < b.0 {
            -1
        } else {
            1
        }
    } else if a.1 != b.1 {
        if a.1 < b.1 {
            -1
        } else {
            1
        }
    } else if a.2 != b.2 {
        if a.2 < b.2 {
            -1
        } else {
            1
        }
    } else {
        0
    }
}

/// Parses a version with `semver::Version::parse`. Trusted: the result is
/// the crate's (named by `semver_parse`), and the fields read back are the
/// parsed version's major, minor and patch numbers, and the texts of its
/// pre-release and build parts. This is the only place a `Semver` is made,
/// so its `version` is always the one these parts were read from.
#[verifier::external_body]
fn parse_version(s: &str) -> (r: Option<Semver>)
    ensures
        match r {
            Some(v) => semver_parse(s@) == Some(v@),
            None => semver_parse(s@) is None,
        },
{
    semver::Version::parse(s).ok().map(|v| Semver {
        major: v.major,
        minor: v.minor,
        patch: v.patch,
        pre: v.pre.as_str().to_string(),
        build: v.build.as_str().to_string(),
        version: v,
    })
}

/// Compares two versions with `semver::Version`'s `Ord`. Trusted: each
/// `Semver` holds the crate's version together with the parts read back from
/// it (see [`parse_version`]), and the crate's order is a function of those
/// parts; the result is named by `semver_order`; as the crate derives the order field by field,
/// versions whose numbers differ are ordered by their numbers, and equal
/// versions compare equal.
///
/// The derived `Ord` is a total order, as `Ord` promises: comparing the
/// other way round gives the opposite result, and a parsed version at or
/// below `b` is also at or below an `a` above `b`.
#[verifier::external_body]
fn compare_versions(a: &Semver, b: &Semver) -> (r: i8)
    ensures
        r == semver_order(a@, b@),
        -1 <= r <= 1,
        a@ == b@ ==> r == 0,
        triple_order(a@, b@) != 0 ==> r == triple_order(a@, b@),
        r == -semver_order(b@, a@),
        forall|c: VersionView|
            #![trigger semver_order(c, b@)]
            r > 0 && is_parsed(c) && semver_order(c, b@) <= 0 ==> semver_order(c, a@) <= 0,
{
    match a.version.cmp(&b.version) {
        std::cmp::Ordering::Less => -1,
        std::cmp::Ordering::Equal => 0,
        std::cmp::Ordering::Greater => 1,
    }
}

// ---------------------------------------------------------------------------
// Normalisation
// ---------------------------------------------------------------------------

/// The number of leading ASCII digits.
pub open spec fn digit_prefix_len(s: Seq<char>) -> nat
    decreases s.len(),
{
    if s.len() > 0 && is_digit(s[0]) {
        1 + digit_prefix_len(s.drop_first())
    } else {
        0
    }
}

/// A leading run of digits and what follows it, if the text starts with a
/// digit.
pub open spec fn numeric_split(s: Seq<char>) -> Option<(Seq<char>, Seq<char>)> {
    let n = digit_prefix_len(s) as int;
    if n > 0 {
        Some((s.take(n), s.skip(n)))
    } else {
        None
    }
}

/// The number of leading `v` characters.
pub open spec fn v_prefix_len(s: Seq<char>) -> nat
    decreases s.len(),
{
    if s.len() > 0 && s[0] == 'v' {
        1 + v_prefix_len(s.drop_first())
    } else {
        0
    }
}

/// The number of `.` characters.
pub open spec fn dot_count(s: Seq<char>) -> nat
    decreases s.len(),
{
    if s.len() == 0 {
        0
    } else {
        dot_count(s.drop_last()) + if s.last() == '.' {
            1nat
        } else {
            0nat
        }
    }
}

/// The position of the first `.` (the length when there is none).
pub open spec fn first_dot(s: Seq<char>) -> nat
    decreases s.len(),
{
    if s.len() == 0 || s[0] == '.' {
        0
    } else {
        1 + first_dot(s.drop_first())
    }
}

/// A tag completed to a full `major.minor.patch` version: leading `v`s are
/// dropped, a lone major (`3`, `3-alpha`) gets `.0.0` and a `major.minor`
/// pair (`4.1`, `4.1-beta`) gets `.0`, before any suffix. Anything else,
/// including tags that do not start with a digit, is left as it is (without
/// its `v`s).
pub open spec fn normalized(s: Seq<char>) -> Seq<char> {
    let t = s.skip(v_prefix_len(s) as int);
    let head = t.take(first_dot(t) as int);
    if head.len() == 0 || !is_digit(head[0]) {
        t
    } else if dot_count(t) == 0 {
        match numeric_split(t) {
            Some(p) => p.0 + ".0.0"@ + p.1,
            None => t,
        }
    } else if dot_count(t) == 1 {
        let minor = t.skip(first_dot(t) + 1int);
        match numeric_split(minor) {
            Some(p) => head + "."@ + p.0 + ".0"@ + p.1,
            None => t,
        }
    } else {
        t
    }
}

proof fn lemma_digit_prefix_len(s: Seq<char>, i: int)
    requires
        0 <= i <= s.len(),
        forall|j: int| 0 <= j < i ==> is_digit(#[trigger] s[j]),
        i == s.len() || !is_digit(s[i]),
    ensures
        digit_prefix_len(s) == i,
    decreases i,
{
    if i > 0 {
        lemma_digit_prefix_len(s.drop_first(), i - 1);
    }
}

proof fn lemma_v_prefix_len(s: Seq<char>, i: int)
    requires
        0 <= i <= s.len(),
        forall|j: int| 0 <= j < i ==> #[trigger] s[j] == 'v',
        i == s.len() || s[i] != 'v',
    ensures
        v_prefix_len(s) == i,
    decreases i,
{
    if i > 0 {
        lemma_v_prefix_len(s.drop_first(), i - 1);
    }
}

proof fn lemma_first_dot(s: Seq<char>, i: int)
    requires
        0 <= i <= s.len(),
        forall|j: int| 0 <= j < i ==> #[trigger] s[j] != '.',
        i == s.len() || s[i] == '.',
    ensures
        first_dot(s) == i,
    decreases i,
{
    if i > 0 {
        lemma_first_dot(s.drop_first(), i - 1);
    }
}

proof fn lemma_no_dots(s: Seq<char>)
    requires
        forall|j: int| 0 <= j < s.len() ==> #[trigger] s[j] != '.',
    ensures
        dot_count(s) == 0,
    decreases s.len(),
{
    if s.len() > 0 {
        lemma_no_dots(s.drop_last());
    }
}

/// Splits a text into its leading ASCII digits and the rest; `None` when it
/// does not start with a digit.
pub fn split_numeric_prefix(s: &str) -> (r: Option<(String, String)>)
    ensures
        match r {
            Some(p) => numeric_split(s@) == Some((p.0@, p.1@)),
            None => numeric_split(s@) is None,
        },
{
    let v = chars_of(s);
    let mut n: usize = 0;
    while n < v.len() && crate::text::char_is_digit(v[n])
        invariant
            0 <= n <= v.len(),
            forall|j: int| 0 <= j < n ==> is_digit(#[trigger] v@[j]),
        decreases v.len() - n,
    {
        n = n + 1;
    }
    proof {
        lemma_digit_prefix_len(v@, n as int);
    }
    if n > 0 {
        Some((string_of(&slice_chars(&v, 0, n)), string_of(&slice_chars(&v, n, v.len()))))
    } else {
        None
    }
}

/// Completes a relaxed tag to a full semantic version where it can, e.g.
/// `v3` to `3.0.0`, `4.1-beta` to `4.1.0-beta`; `main` stays `main`.
pub fn normalize_semver(s: &str) -> (r: String)
    ensures
        r@ == normalized(s@),
{
    let v = chars_of(s);
    let mut a: usize = 0;
    while a < v.len() && v[a] == 'v'
        invariant
            0 <= a <= v.len(),
            forall|j: int| 0 <= j < a ==> #[trigger] v@[j] == 'v',
        decreases v.len() - a,
    {
        a = a + 1;
    }
    proof {
        lemma_v_prefix_len(v@, a as int);
    }
    let t = slice_chars(&v, a, v.len());
    assert(t@ =~= s@.skip(v_prefix_len(s@) as int));
    let ts = string_of(&t);
    // Locate the dots.
    let mut d: usize = 0;
    while d < t.len() && t[d] != '.'
        invariant
            0 <= d <= t.len(),
            forall|j: int| 0 <= j < d ==> #[trigger] t@[j] != '.',
        decreases t.len() - d,
    {
        d = d + 1;
    }
    proof {
        lemma_first_dot(t@, d as int);
    }
    let mut dots: usize = 0;
    let mut i: usize = 0;
    while i < t.len()
        invariant
            0 <= i <= t.len(),
            dots <= i,
            dots == dot_count(t@.take(i as int)),
        decreases t.len() - i,
    {
        assert(t@.take(i + 1).drop_last() =~= t@.take(i as int));
        if t[i] == '.' {
            dots = dots + 1;
        }
        i = i + 1;
    }
    assert(t@.take(t.len() as int) =~= t@);
    if d == 0 || !crate::text::char_is_digit(t[0]) {
        return ts;
    }
    assert(t@.take(d as int)[0] == t@[0]);
    let head = string_of(&slice_chars(&t, 0, d));
    if dots == 0 {
        match split_numeric_prefix(ts.as_str()) {
            Some((num, rest)) => {
                let x = concat(num.as_str(), ".0.0");
                concat(x.as_str(), rest.as_str())
            },
            None => ts,
        }
    } else if dots == 1 {
        proof {
            if d == t.len() {
                lemma_no_dots(t@);
            }
        }
        let minor = string_of(&slice_chars(&t, d + 1, t.len()));
        assert(minor@ =~= t@.skip(d + 1));
        match split_numeric_prefix(minor.as_str()) {
            Some((num, rest)) => {
                let x = concat(head.as_str(), ".");
                let y = concat(x.as_str(), num.as_str());
                let z = concat(y.as_str(), ".0");
                concat(z.as_str(), rest.as_str())
            },
            None => ts,
        }
    } else {
        ts
    }
}

/// The version a tag stands for, if its completed form parses.
pub open spec fn relaxed_version(s: Seq<char>) -> Option<VersionView> {
    semver_parse(normalized(s))
}

/// Parses a tag leniently: it is completed first (`v3` is `3.0.0`).
pub fn parse_relaxed_semver(s: &str) -> (r: Option<Semver>)
    ensures
        match r {
            Some(v) => relaxed_version(s@) == Some(v@),
            None => relaxed_version(s@) is None,
        },
{
    let n = normalize_semver(s);
    parse_version(n.as_str())
}

/// Whether `new_tag` is newer than `current_tag`: by version when both are
/// versions; a version is newer than a non-version (such as a branch) and a
/// non-version never newer than a version; two non-versions are "newer" when
/// they differ.
pub open spec fn newer(new_tag: Seq<char>, current_tag: Seq<char>) -> bool {
    match (relaxed_version(new_tag), relaxed_version(current_tag)) {
        (Some(a), Some(b)) => semver_order(a, b) > 0,
        (Some(_), None) => true,
        (None, Some(_)) => false,
        (None, None) => new_tag != current_tag,
    }
}

/// Whether `new_tag` is newer than `current_tag` (see [`newer`]). No tag is
/// newer than itself.
pub fn is_newer(new_tag: &str, current_tag: &str) -> (r: bool)
    ensures
        r == newer(new_tag@, current_tag@),
        new_tag@ == current_tag@ ==> !r,
{
    match (parse_relaxed_semver(new_tag), parse_relaxed_semver(current_tag)) {
        (Some(a), Some(b)) => compare_versions(&a, &b) > 0,
        (Some(_), None) => true,
        (None, Some(_)) => false,
        (None, None) => !str_eq(new_tag, current_tag),
    }
}

/// Compares two parsed versions: negative, zero or positive.
pub fn version_order(a: &Semver, b: &Semver) -> (r: i8)
    ensures
        r == semver_order(a@, b@),
        r == -semver_order(b@, a@),
        forall|c: VersionView|
            #![trigger semver_order(c, b@)]
            r > 0 && is_parsed(c) && semver_order(c, b@) <= 0 ==> semver_order(c, a@) <= 0,
        a@ == b@ ==> r == 0,
        triple_order(a@, b@) != 0 ==> r == triple_order(a@, b@),
{
    compare_versions(a, b)
}

} // verus!
