//! The decisions of tag resolution.
//!
//! Resolving a task takes one or two requests to a remote provider or an OCI
//! registry (made by the executable, asynchronously). The resolver here decides,
//! from the task and the replies received so far, which request comes next
//! and, once it has what it needs, what the task resolves to.
use crate::cli::UpgradeStrategy;
use crate::domain::dependency::DependencyRef;
use crate::error::PinnerError;
use crate::domain::update::{logical_tag_of, opt_view, UpdateResult, UpdateTask};
use crate::resolver::version::{
    is_newer, is_parsed, newer, normalized, parse_relaxed_semver, relaxed_version, semver_order, semver_parse, version_order, Semver,
    VersionView,
};
use crate::text::{chars_of, has_prefix, owned, starts_with, str_eq};
use vstd::prelude::*;

verus! {

/// A request to the outside world.
#[derive(Debug, Clone, PartialEq, Eq)]
pub enum Fetch {
    /// The digest of `image:tag` from its OCI registry.
    Digest { image: String, tag: String },
    /// The commit that `reference` (a tag or branch) of the task's repository
    /// points at.
    CommitSha { reference: String },
    /// The latest release tag of the task's repository.
    LatestRelease,
    /// All tags of the task's repository.
    Tags,
    /// The default branch of the task's repository.
    DefaultBranch,
}

/// A reply to a request.
#[derive(Debug, Clone)]
pub enum Fetched {
    Digest(String),
    Sha(DependencyRef),
    Release(String),
    Tags(Vec<String>),
    Branch(String),
}

/// What the resolver does next: make a request, or finish with the new
/// reference and the tag to record next to it (or with nothing to change).
#[derive(Debug, Clone)]
pub enum Step {
    Request(Fetch),
    Done(Option<(DependencyRef, Option<String>)>),
}

/// How a digest or SHA text is classified as a reference.
pub open spec fn ref_from(d: String) -> DependencyRef {
    if has_prefix(d@, "sha256:"@) {
        DependencyRef::DockerDigest(d)
    } else {
        DependencyRef::GitSha(d)
    }
}

/// The task names a container image: a `docker://` action or an `image` key.
pub open spec fn is_image(t: UpdateTask) -> bool {
    has_prefix(t.action.0@, "docker://"@) || t.key@ == "image"@
}

/// The image name of a task, without a `docker://` scheme.
pub open spec fn image_name(t: UpdateTask) -> Seq<char> {
    if has_prefix(t.action.0@, "docker://"@) {
        t.action.0@.skip(9)
    } else {
        t.action.0@
    }
}

/// The tag a task stands for, or empty when it has none.
pub open spec fn logical_or_empty(t: UpdateTask) -> Seq<char> {
    match t.current_tag {
        Some(c) => logical_tag_of(c@, opt_view(t.comment)),
        None => Seq::empty(),
    }
}

/// A request, seen as plain values.
pub open spec fn fetch_view(f: Fetch) -> (int, Seq<char>, Seq<char>) {
    match f {
        Fetch::Digest { image, tag } => (0, image@, tag@),
        Fetch::CommitSha { reference } => (1, reference@, Seq::empty()),
        Fetch::LatestRelease => (2, Seq::empty(), Seq::empty()),
        Fetch::Tags => (3, Seq::empty(), Seq::empty()),
        Fetch::DefaultBranch => (4, Seq::empty(), Seq::empty()),
    }
}

/// A finished resolution, seen as plain values.
pub open spec fn outcome_view(o: Option<(DependencyRef, Option<String>)>) -> Option<(DependencyRef, Option<Seq<char>>)> {
    match o {
        Some(p) => Some((p.0, opt_view(p.1))),
        None => None,
    }
}

/// Pinning, as a function of the replies received so far: orbs are versioned
/// and immutable and are left alone; an image tag that is not a digest yet asks
/// for its digest; a repository ref that is not a 40-byte SHA asks for its
/// commit; anything else needs nothing. The reply is recorded together with
/// the tag it was resolved from.
pub open spec fn pin_spec(t: UpdateTask, replies: Seq<Fetched>) -> (
    bool,
    (int, Seq<char>, Seq<char>),
    Option<(DependencyRef, Option<Seq<char>>)>,
) {
    let none = (false, (0int, Seq::<char>::empty(), Seq::<char>::empty()), None);
    if t.key@ == "orbs"@ {
        none
    } else {
        match t.current_tag {
            Some(v) => if is_image(t) {
                if has_prefix(v@, "sha256:"@) {
                    none
                } else if replies.len() == 0 {
                    (true, (0, image_name(t), v@), None)
                } else {
                    match replies[0] {
                        Fetched::Digest(d) => (false, (0, Seq::empty(), Seq::empty()), Some((ref_from(d), Some(v@)))),
                        _ => none,
                    }
                }
            } else if crate::text::byte_len(v@) != 40 {
                if replies.len() == 0 {
                    (true, (1, v@, Seq::empty()), None)
                } else {
                    match replies[0] {
                        Fetched::Sha(sha) => (false, (0, Seq::empty(), Seq::empty()), Some((sha, Some(v@)))),
                        _ => none,
                    }
                }
            } else {
                none
            },
            None => none,
        }
    }
}

/// A dependency that is already pinned to a commit is left alone by pinning:
/// no request, nothing to change. (Image tasks are excluded: an image whose
/// tag happens to be 40 hexadecimal characters is still looked up.)
pub proof fn lemma_pinned_commit_stays(t: UpdateTask, replies: Seq<Fetched>)
    requires
        t.current_tag matches Some(v) && crate::domain::update::is_git_sha(v@),
        !is_image(t),
    ensures
        !pin_spec(t, replies).0,
        pin_spec(t, replies).2 is None,
{
    let v = t.current_tag->0@;
    lemma_hex_bytes(v);
}

/// Hexadecimal digits take one byte each.
proof fn lemma_hex_bytes(s: Seq<char>)
    requires
        forall|i: int| 0 <= i < s.len() ==> crate::text::is_hex(#[trigger] s[i]),
    ensures
        crate::text::byte_len(s) == s.len(),
    decreases s.len(),
{
    if s.len() > 0 {
        assert forall|i: int| 0 <= i < s.drop_last().len() implies crate::text::is_hex(#[trigger] s.drop_last()[i]) by {
            assert(s.drop_last()[i] == s[i]);
        }
        lemma_hex_bytes(s.drop_last());
        assert(crate::text::is_hex(s[s.len() - 1]));
    }
}

/// `step` is what the specification `e` says: the same request, or the same
/// outcome.
pub open spec fn step_is(
    step: Step,
    e: (bool, (int, Seq<char>, Seq<char>), Option<(DependencyRef, Option<Seq<char>>)>),
) -> bool {
    match step {
        Step::Request(f) => e.0 && fetch_view(f) == e.1,
        Step::Done(o) => !e.0 && outcome_view(o) == e.2,
    }
}

// ---------------------------------------------------------------------------
// Choosing among tags
// ---------------------------------------------------------------------------

/// A tag is a candidate for the strategy: its version shares the major
/// (`Major`) or the major and minor (`Minor`) of the current version, and,
/// when `strict`, is above it.
pub open spec fn eligible(
    v: VersionView,
    cv: VersionView,
    strategy: UpgradeStrategy,
    strict: bool,
) -> bool {
    match strategy {
        UpgradeStrategy::Major => v.0 == cv.0 && (!strict || semver_order(v, cv) > 0),
        UpgradeStrategy::Minor => v.0 == cv.0 && v.1 == cv.1 && (!strict || semver_order(v, cv) > 0),
        _ => false,
    }
}

/// The highest eligible tag, the first one among equals: the tags are scanned
/// in order and a tag replaces the best so far only when its version is above
/// it.
pub open spec fn best_tag(
    tags: Seq<Seq<char>>,
    cv: VersionView,
    strategy: UpgradeStrategy,
    strict: bool,
) -> Option<(Seq<char>, VersionView)>
    decreases tags.len(),
{
    if tags.len() == 0 {
        None
    } else {
        let prev = best_tag(tags.drop_last(), cv, strategy, strict);
        let t = tags.last();
        match relaxed_version(t) {
            Some(v) => if eligible(v, cv, strategy, strict) && match prev {
                Some(pb) => semver_order(v, pb.1) > 0,
                None => true,
            } {
                Some((t, v))
            } else {
                prev
            },
            None => prev,
        }
    }
}

/// The tag an upgrade within the current major or minor version moves to, if
/// the current tag is a version.
pub open spec fn upgrade_target(
    tags: Seq<Seq<char>>,
    current: Seq<char>,
    strategy: UpgradeStrategy,
    strict: bool,
) -> Option<Seq<char>> {
    match relaxed_version(current) {
        Some(cv) => match best_tag(tags, cv, strategy, strict) {
            Some(b) => Some(b.0),
            None => None,
        },
        None => None,
    }
}

proof fn lemma_best_tag_eligible(tags: Seq<Seq<char>>, cv: VersionView, strategy: UpgradeStrategy, strict: bool)
    ensures
        best_tag(tags, cv, strategy, strict) matches Some(b) ==> tags.contains(b.0) && relaxed_version(b.0) == Some(b.1)
            && eligible(b.1, cv, strategy, strict),
    decreases tags.len(),
{
    if tags.len() > 0 {
        lemma_best_tag_eligible(tags.drop_last(), cv, strategy, strict);
        let prev = best_tag(tags.drop_last(), cv, strategy, strict);
        if let Some(pb) = prev {
            let k = choose|k: int| 0 <= k < tags.drop_last().len() && tags.drop_last()[k] == pb.0;
            assert(tags[k] == pb.0);
        }
        assert(tags[tags.len() - 1] == tags.last());
    }
}

/// An upgrade moves to one of the listed tags, within the current major
/// version (`Major`) or the current major and minor version (`Minor`), and,
/// when strict, to a higher version than the current one; the other
/// strategies never pick a tag here.
pub proof fn lemma_upgrade_stays_in_line(tags: Seq<Seq<char>>, current: Seq<char>, strategy: UpgradeStrategy, strict: bool)
    ensures
        upgrade_target(tags, current, strategy, strict) matches Some(t) ==> {
            &&& tags.contains(t)
            &&& relaxed_version(t) matches Some(v)
            &&& relaxed_version(current) matches Some(cv)
            &&& v.0 == cv.0
            &&& (strategy == UpgradeStrategy::Minor ==> v.1 == cv.1)
            &&& (strategy == UpgradeStrategy::Major || strategy == UpgradeStrategy::Minor)
            &&& (strict ==> semver_order(v, cv) > 0)
        },
{
    if let Some(cv) = relaxed_version(current) {
        lemma_best_tag_eligible(tags, cv, strategy, strict);
    }
}

/// The texts of some strings.
pub open spec fn texts(v: Seq<String>) -> Seq<Seq<char>> {
    v.map_values(|s: String| s@)
}

/// The tag at `i` holds a version eligible for the upgrade.
pub open spec fn eligible_at(tags: Seq<Seq<char>>, i: int, cv: VersionView, strategy: UpgradeStrategy, strict: bool) -> bool {
    relaxed_version(tags[i]) matches Some(v) && eligible(v, cv, strategy, strict)
}

/// The tag an upgrade within the current major or minor version moves to
/// (see [`upgrade_target`]). It is the highest eligible version among the
/// tags: a tag is picked exactly when one is eligible, and every eligible
/// tag's version is the picked one or ordered at or below it (`semver`'s
/// order).
pub fn choose_tag(tags: &Vec<String>, current: &str, strategy: UpgradeStrategy, strict: bool) -> (r: Option<String>)
    ensures
        opt_view(r) == upgrade_target(tags@.map_values(|s: String| s@), current@, strategy, strict),
        relaxed_version(current@) matches Some(cv) ==> {
            &&& r is Some <==> exists|i: int|
                0 <= i < tags@.len() && #[trigger] eligible_at(texts(tags@), i, cv, strategy, strict)
            &&& r matches Some(t) ==> (relaxed_version(t@) matches Some(bv) && forall|i: int|
                0 <= i < tags@.len() && #[trigger] eligible_at(texts(tags@), i, cv, strategy, strict)
                    ==> relaxed_version(tags@[i]@)->0 == bv || semver_order(relaxed_version(tags@[i]@)->0, bv) <= 0)
        },
{
    let ghost tv = texts(tags@);
    let cv = match parse_relaxed_semver(current) {
        Some(v) => v,
        None => return None,
    };
    let mut best: Option<(String, Semver)> = None;
    let mut i: usize = 0;
    while i < tags.len()
        invariant
            0 <= i <= tags.len(),
            tv == tags@.map_values(|s: String| s@),
            relaxed_version(current@) == Some(cv@),
            match best {
                Some(b) => best_tag(tv.take(i as int), cv@, strategy, strict) == Some((b.0@, b.1@))
                    && relaxed_version(b.0@) == Some(b.1@)
                    && forall|j: int| 0 <= j < i && #[trigger] eligible_at(tv, j, cv@, strategy, strict)
                    ==> relaxed_version(tv[j])->0 == b.1@ || semver_order(relaxed_version(tv[j])->0, b.1@) <= 0,
                None => best_tag(tv.take(i as int), cv@, strategy, strict) is None
                    && forall|j: int| 0 <= j < i ==> !#[trigger] eligible_at(tv, j, cv@, strategy, strict),
            },
        decreases tags.len() - i,
    {
        assert(tv.take(i + 1).drop_last() =~= tv.take(i as int));
        assert(tv.take(i + 1).last() == tags@[i as int]@);
        match parse_relaxed_semver(tags[i].as_str()) {
            Some(v) => {
                let fits = match strategy {
                    UpgradeStrategy::Major => v.major() == cv.major() && (!strict || version_order(&v, &cv) > 0),
                    UpgradeStrategy::Minor => v.major() == cv.major() && v.minor() == cv.minor() && (!strict
                        || version_order(&v, &cv) > 0),
                    _ => false,
                };
                let better = match &best {
                    Some(b) => version_order(&v, &b.1) > 0,
                    None => true,
                };
                proof {
                    assert(tv[i as int] == tags@[i as int]@);
                    assert(eligible_at(tv, i as int, cv@, strategy, strict) == fits);
                    assert forall|j: int| 0 <= j < i && #[trigger] eligible_at(tv, j, cv@, strategy, strict)
                        implies is_parsed(relaxed_version(tv[j])->0) by {
                        assert(semver_parse(normalized(tv[j])) == Some(relaxed_version(tv[j])->0));
                    }
                }
                if fits && better {
                    best = Some((tags[i].clone(), v));
                }
            },
            None => {
                assert(tv[i as int] == tags@[i as int]@);
            },
        }
        i = i + 1;
    }
    assert(tv.take(tags.len() as int) =~= tv);
    proof {
        lemma_best_tag_eligible(tv, cv@, strategy, strict);
        if best is Some {
            let b = best->0;
            let k = choose|k: int| 0 <= k < tv.len() && tv[k] == b.0@;
            assert(eligible_at(tv, k, cv@, strategy, strict));
        }
        assert forall|j: int| 0 <= j < tags@.len() implies tv[j] == tags@[j]@ by {}
    }
    match best {
        Some(b) => Some(b.0),
        None => None,
    }
}

// ---------------------------------------------------------------------------
// The steps
// ---------------------------------------------------------------------------

/// Upgrading an image keeps its tag: the digest asked for is the one of the
/// image at the task's own tag (`latest` only when the task has none), and
/// the digest that comes back is recorded with that same tag.
pub proof fn lemma_image_upgrade_keeps_tag(
    t: UpdateTask,
    strategy: UpgradeStrategy,
    strict: bool,
    first: Step,
    d: String,
    then: Step,
)
    requires
        t.key@ != "orbs"@,
        is_image(t),
        step_is(first, upgrade_spec(t, strategy, strict, seq![])),
        step_is(then, upgrade_spec(t, strategy, strict, seq![Fetched::Digest(d)])),
    ensures
        first matches Step::Request(Fetch::Digest { image, tag }) && image@ == image_name(t) && tag@ == (match t.current_tag {
            Some(c) => c@,
            None => "latest"@,
        }),
        then matches Step::Done(Some((r, tag))) && r == ref_from(d) && opt_view(tag) == Some(
            match t.current_tag {
                Some(c) => c@,
                None => "latest"@,
            },
        ),
{
}

/// The repository that a tag or branch is looked up in when upgrading, and
/// what the upgrade yields, as a function of the replies received so far.
pub open spec fn upgrade_spec(
    t: UpdateTask,
    strategy: UpgradeStrategy,
    strict: bool,
    replies: Seq<Fetched>,
) -> (bool, (int, Seq<char>, Seq<char>), Option<(DependencyRef, Option<Seq<char>>)>) {
    let cur = logical_or_empty(t);
    if t.key@ == "orbs"@ {
        if replies.len() == 0 {
            (true, (2, Seq::empty(), Seq::empty()), None)
        } else {
            match replies[0] {
                Fetched::Release(tag) => if !strict {
                    (false, (0, Seq::empty(), Seq::empty()), Some((DependencyRef::Version(tag), Some(tag@))))
                } else if newer(tag@, cur) {
                    (false, (0, Seq::empty(), Seq::empty()), Some((DependencyRef::Version(tag), None)))
                } else {
                    (false, (0, Seq::empty(), Seq::empty()), None)
                },
                _ => (false, (0, Seq::empty(), Seq::empty()), None),
            }
        }
    } else if is_image(t) {
        let tag = match t.current_tag {
            Some(c) => c@,
            None => "latest"@,
        };
        if replies.len() == 0 {
            (true, (0, image_name(t), tag), None)
        } else {
            match replies[0] {
                Fetched::Digest(d) => (
                    false,
                    (0, Seq::empty(), Seq::empty()),
                    Some((ref_from(d), Some(tag))),
                ),
                _ => (false, (0, Seq::empty(), Seq::empty()), None),
            }
        }
    } else if strategy == UpgradeStrategy::Commit {
        if replies.len() == 0 {
            (true, (4, Seq::empty(), Seq::empty()), None)
        } else {
            match replies[0] {
                Fetched::Branch(b) => if replies.len() == 1 {
                    (true, (1, b@, Seq::empty()), None)
                } else {
                    match replies[1] {
                        Fetched::Sha(s) => (false, (0, Seq::empty(), Seq::empty()), Some((s, Some(b@)))),
                        _ => (false, (0, Seq::empty(), Seq::empty()), None),
                    }
                },
                _ => (false, (0, Seq::empty(), Seq::empty()), None),
            }
        }
    } else {
        let latest = strategy == UpgradeStrategy::Latest;
        if replies.len() == 0 {
            (true, (if latest { 2int } else { 3int }, Seq::empty(), Seq::empty()), None)
        } else {
            let target: Option<Seq<char>> = match replies[0] {
                Fetched::Release(tag) => if latest && (!strict || newer(tag@, cur)) {
                    Some(tag@)
                } else {
                    None
                },
                Fetched::Tags(ts) => if !latest {
                    upgrade_target(ts@.map_values(|s: String| s@), cur, strategy, strict)
                } else {
                    None
                },
                _ => None,
            };
            match target {
                Some(tag) => if strict && opt_view(t.current_tag) == Some(tag) {
                    (false, (0, Seq::empty(), Seq::empty()), None)
                } else if replies.len() == 1 {
                    (true, (1, tag, Seq::empty()), None)
                } else {
                    match replies[1] {
                        Fetched::Sha(s) => (false, (0, Seq::empty(), Seq::empty()), Some((s, Some(tag)))),
                        _ => (false, (0, Seq::empty(), Seq::empty()), None),
                    }
                },
                None => (false, (0, Seq::empty(), Seq::empty()), None),
            }
        }
    }
}

// ---------------------------------------------------------------------------
// Executable steps
// ---------------------------------------------------------------------------

fn copy_ref(d: &DependencyRef) -> (r: DependencyRef)
    ensures
        r == *d,
{
    match d {
        DependencyRef::GitSha(s) => DependencyRef::GitSha(s.clone()),
        DependencyRef::DockerDigest(s) => DependencyRef::DockerDigest(s.clone()),
        DependencyRef::Version(s) => DependencyRef::Version(s.clone()),
    }
}

fn ref_from_exec(d: &String) -> (r: DependencyRef)
    ensures
        r == ref_from(*d),
{
    DependencyRef::from_string(d.clone())
}

fn is_image_exec(t: &UpdateTask) -> (r: bool)
    ensures
        r == is_image(*t),
{
    t.action.is_docker() || str_eq(t.key.as_str(), "image")
}

fn logical_or_empty_exec(t: &UpdateTask) -> (r: String)
    ensures
        r@ == logical_or_empty(*t),
{
    match t.logical_tag() {
        Some(s) => s,
        None => String::new(),
    }
}

/// The next step of pinning a task, given the replies so far (see
/// [`pin_spec`]).
pub fn pin_step(task: &UpdateTask, replies: &Vec<Fetched>) -> (r: Step)
    ensures
        step_is(r, pin_spec(*task, replies@)),
{
    if str_eq(task.key.as_str(), "orbs") {
        return Step::Done(None);
    }
    let ver = match &task.current_tag {
        Some(v) => v,
        None => return Step::Done(None),
    };
    if is_image_exec(task) {
        if starts_with(&chars_of(ver.as_str()), &chars_of("sha256:")) {
            return Step::Done(None);
        }
        if replies.len() == 0 {
            return Step::Request(Fetch::Digest { image: task.action.trim_docker_prefix(), tag: ver.clone() });
        }
        match &replies[0] {
            Fetched::Digest(d) => Step::Done(Some((ref_from_exec(d), Some(ver.clone())))),
            _ => Step::Done(None),
        }
    } else if !crate::text::byte_len_is(ver.as_str(), 40) {
        if replies.len() == 0 {
            return Step::Request(Fetch::CommitSha { reference: ver.clone() });
        }
        match &replies[0] {
            Fetched::Sha(sha) => Step::Done(Some((copy_ref(sha), Some(ver.clone())))),
            _ => Step::Done(None),
        }
    } else {
        Step::Done(None)
    }
}

/// The next step of upgrading a task, given the replies so far (see
/// [`upgrade_spec`]). With `strict`, only newer versions are taken (an
/// upgrade); without, the candidate is returned whatever it is.
pub fn upgrade_step(task: &UpdateTask, strategy: UpgradeStrategy, strict: bool, replies: &Vec<Fetched>) -> (r: Step)
    ensures
        step_is(r, upgrade_spec(*task, strategy, strict, replies@)),
{
    let cur = logical_or_empty_exec(task);
    if str_eq(task.key.as_str(), "orbs") {
        if replies.len() == 0 {
            return Step::Request(Fetch::LatestRelease);
        }
        return match &replies[0] {
            Fetched::Release(tag) => if !strict {
                Step::Done(Some((DependencyRef::Version(tag.clone()), Some(tag.clone()))))
            } else if is_newer(tag.as_str(), cur.as_str()) {
                Step::Done(Some((DependencyRef::Version(tag.clone()), None)))
            } else {
                Step::Done(None)
            },
            _ => Step::Done(None),
        };
    }
    if is_image_exec(task) {
        let tag = match &task.current_tag {
            Some(c) => c.clone(),
            None => owned("latest"),
        };
        if replies.len() == 0 {
            return Step::Request(Fetch::Digest { image: task.action.trim_docker_prefix(), tag });
        }
        return match &replies[0] {
            Fetched::Digest(d) => Step::Done(Some((ref_from_exec(d), Some(tag)))),
            _ => Step::Done(None),
        };
    }
    if strategy == UpgradeStrategy::Commit {
        if replies.len() == 0 {
            return Step::Request(Fetch::DefaultBranch);
        }
        return match &replies[0] {
            Fetched::Branch(b) => if replies.len() == 1 {
                Step::Request(Fetch::CommitSha { reference: b.clone() })
            } else {
                match &replies[1] {
                    Fetched::Sha(s) => Step::Done(Some((copy_ref(s), Some(b.clone())))),
                    _ => Step::Done(None),
                }
            },
            _ => Step::Done(None),
        };
    }
    let latest = strategy == UpgradeStrategy::Latest;
    if replies.len() == 0 {
        return Step::Request(if latest { Fetch::LatestRelease } else { Fetch::Tags });
    }
    let target: Option<String> = match &replies[0] {
        Fetched::Release(tag) => if latest && (!strict || is_newer(tag.as_str(), cur.as_str())) {
            Some(tag.clone())
        } else {
            None
        },
        Fetched::Tags(ts) => if !latest {
            choose_tag(ts, cur.as_str(), strategy, strict)
        } else {
            None
        },
        _ => None,
    };
    match target {
        Some(tag) => {
            let same = match &task.current_tag {
                Some(c) => str_eq(c.as_str(), tag.as_str()),
                None => false,
            };
            if strict && same {
                Step::Done(None)
            } else if replies.len() == 1 {
                Step::Request(Fetch::CommitSha { reference: tag })
            } else {
                match &replies[1] {
                    Fetched::Sha(s) => Step::Done(Some((copy_ref(s), Some(tag)))),
                    _ => Step::Done(None),
                }
            }
        },
        None => Step::Done(None),
    }
}

// ---------------------------------------------------------------------------
// Batches of tasks
// ---------------------------------------------------------------------------

/// Tasks that share an action, a tag and a key resolve alike, and are
/// resolved once.
pub open spec fn task_key(t: UpdateTask) -> (Seq<char>, Option<Seq<char>>, Seq<char>) {
    (t.action.0@, opt_view(t.current_tag), t.key@)
}

/// The distinct keys of the tasks, in the order of their first task.
pub open spec fn keys_in_order(ts: Seq<UpdateTask>) -> Seq<(Seq<char>, Option<Seq<char>>, Seq<char>)>
    decreases ts.len(),
{
    if ts.len() == 0 {
        Seq::empty()
    } else {
        let ks = keys_in_order(ts.drop_last());
        if ks.contains(task_key(ts.last())) {
            ks
        } else {
            ks.push(task_key(ts.last()))
        }
    }
}

/// The tasks with key `k`, in the order given.
pub open spec fn with_key(ts: Seq<UpdateTask>, k: (Seq<char>, Option<Seq<char>>, Seq<char>)) -> Seq<UpdateTask>
    decreases ts.len(),
{
    if ts.len() == 0 {
        ts
    } else if task_key(ts.last()) == k {
        with_key(ts.drop_last(), k).push(ts.last())
    } else {
        with_key(ts.drop_last(), k)
    }
}

/// The tasks with another key than `k`, in the order given.
pub open spec fn without_key(ts: Seq<UpdateTask>, k: (Seq<char>, Option<Seq<char>>, Seq<char>)) -> Seq<UpdateTask>
    decreases ts.len(),
{
    if ts.len() == 0 {
        ts
    } else if task_key(ts.last()) != k {
        without_key(ts.drop_last(), k).push(ts.last())
    } else {
        without_key(ts.drop_last(), k)
    }
}

proof fn lemma_with_without(s: Seq<UpdateTask>, p: (Seq<char>, Option<Seq<char>>, Seq<char>), q: (Seq<char>, Option<Seq<char>>, Seq<char>))
    requires
        p != q,
    ensures
        with_key(without_key(s, p), q) == with_key(s, q),
    decreases s.len(),
{
    if s.len() > 0 {
        lemma_with_without(s.drop_last(), p, q);
        if task_key(s.last()) != p {
            assert(without_key(s, p).drop_last() =~= without_key(s.drop_last(), p));
        }
    }
}

proof fn lemma_keys_distinct(s: Seq<UpdateTask>)
    ensures
        keys_in_order(s).no_duplicates(),
    decreases s.len(),
{
    if s.len() > 0 {
        lemma_keys_distinct(s.drop_last());
    }
}

/// Grouping resolves every dependency once: the keys of the groups are
/// distinct, and each task's key is the key of a group, whose tasks include
/// it.
pub proof fn lemma_each_key_resolved_once(ts: Seq<UpdateTask>)
    ensures
        keys_in_order(ts).no_duplicates(),
        forall|i: int|
            0 <= i < ts.len() ==> keys_in_order(ts).contains(task_key(#[trigger] ts[i])) && with_key(
                ts,
                task_key(ts[i]),
            ).contains(ts[i]),
    decreases ts.len(),
{
    lemma_keys_distinct(ts);
    if ts.len() > 0 {
        let init = ts.drop_last();
        lemma_each_key_resolved_once(init);
        assert forall|i: int| 0 <= i < ts.len() implies keys_in_order(ts).contains(task_key(#[trigger] ts[i]))
            && with_key(ts, task_key(ts[i])).contains(ts[i]) by {
            let ks = keys_in_order(init);
            if i < ts.len() - 1 {
                assert(init[i] == ts[i]);
                let m = choose|m: int| 0 <= m < ks.len() && ks[m] == task_key(init[i]);
                if !ks.contains(task_key(ts.last())) {
                    assert(ks.push(task_key(ts.last()))[m] == ks[m]);
                }
                let w = with_key(init, task_key(ts[i]));
                let j = choose|j: int| 0 <= j < w.len() && w[j] == ts[i];
                if task_key(ts.last()) == task_key(ts[i]) {
                    assert(w.push(ts.last())[j] == ts[i]);
                }
            } else {
                if ks.contains(task_key(ts.last())) {
                } else {
                    assert(ks.push(task_key(ts.last()))[ks.len() as int] == task_key(ts.last()));
                }
                let w = with_key(init, task_key(ts.last()));
                assert(w.push(ts.last())[w.len() as int] == ts.last());
            }
        }
    }
}

/// The view of a key held as values.
pub open spec fn key_view(k: (String, Option<String>, String)) -> (Seq<char>, Option<Seq<char>>, Seq<char>) {
    (k.0@, opt_view(k.1), k.2@)
}

fn copy_opt(o: &Option<String>) -> (r: Option<String>)
    ensures
        r == *o,
{
    match o {
        Some(s) => Some(s.clone()),
        None => None,
    }
}

fn has_key(t: &UpdateTask, k: &(String, Option<String>, String)) -> (r: bool)
    ensures
        r == (task_key(*t) == key_view(*k)),
{
    let tags_equal = match (&t.current_tag, &k.1) {
        (Some(x), Some(y)) => str_eq(x.as_str(), y.as_str()),
        (None, None) => true,
        _ => false,
    };
    str_eq(t.action.0.as_str(), k.0.as_str()) && tags_equal && str_eq(t.key.as_str(), k.2.as_str())
}

fn key_listed(ks: &Vec<(String, Option<String>, String)>, t: &UpdateTask) -> (r: bool)
    ensures
        r == ks@.map_values(|k: (String, Option<String>, String)| key_view(k)).contains(task_key(*t)),
{
    let ghost kv = ks@.map_values(|k: (String, Option<String>, String)| key_view(k));
    let mut j: usize = 0;
    while j < ks.len()
        invariant
            0 <= j <= ks.len(),
            kv == ks@.map_values(|k: (String, Option<String>, String)| key_view(k)),
            forall|m: int| 0 <= m < j ==> kv[m] != task_key(*t),
        decreases ks.len() - j,
    {
        if has_key(t, &ks[j]) {
            assert(kv[j as int] == task_key(*t));
            return true;
        }
        j = j + 1;
    }
    false
}

fn collect_keys(tasks: &Vec<UpdateTask>) -> (ks: Vec<(String, Option<String>, String)>)
    ensures
        ks@.map_values(|k: (String, Option<String>, String)| key_view(k)) == keys_in_order(tasks@),
{
    let mut ks: Vec<(String, Option<String>, String)> = Vec::new();
    let mut i: usize = 0;
    while i < tasks.len()
        invariant
            0 <= i <= tasks.len(),
            ks@.map_values(|k: (String, Option<String>, String)| key_view(k)) == keys_in_order(tasks@.take(i as int)),
        decreases tasks.len() - i,
    {
        let t = &tasks[i];
        assert(tasks@.take(i + 1).drop_last() =~= tasks@.take(i as int));
        let ghost kv = ks@.map_values(|k: (String, Option<String>, String)| key_view(k));
        if !key_listed(&ks, t) {
            let k = (t.action.0.clone(), copy_opt(&t.current_tag), t.key.clone());
            ks.push(k);
            assert(ks@.map_values(|k: (String, Option<String>, String)| key_view(k)) =~= kv.push(task_key(*t)));
        }
        i = i + 1;
    }
    assert(tasks@.take(tasks.len() as int) =~= tasks@);
    ks
}

/// Moves the tasks with key `key` out of `pool`.
fn extract_key(pool: &mut Vec<UpdateTask>, key: &(String, Option<String>, String)) -> (g: Vec<UpdateTask>)
    ensures
        g@ == with_key(old(pool)@, key_view(*key)),
        final(pool)@ == without_key(old(pool)@, key_view(*key)),
{
    let ghost orig = pool@;
    let ghost k0 = key_view(*key);
    let mut g: Vec<UpdateTask> = Vec::new();
    let mut k: usize = 0;
    let mut i: usize = 0;
    let n = pool.len();
    while k < n
        invariant
            n == orig.len(),
            0 <= k <= n,
            k0 == key_view(*key),
            g@ == with_key(orig.take(k as int), k0),
            i == without_key(orig.take(k as int), k0).len(),
            pool@ == without_key(orig.take(k as int), k0) + orig.skip(k as int),
        decreases n - k,
    {
        assert(orig.take(k + 1).drop_last() =~= orig.take(k as int));
        assert(pool@.len() == i + (n - k));
        assert(pool@[i as int] == orig[k as int]);
        if has_key(&pool[i], key) {
            let x = pool.remove(i);
            g.push(x);
            assert(pool@ =~= without_key(orig.take(k + 1), k0) + orig.skip(k + 1));
        } else {
            assert(pool@ =~= without_key(orig.take(k + 1), k0) + orig.skip(k + 1));
            let len = pool.len();
            assert(i < len);
            i = i + 1;
        }
        k = k + 1;
    }
    assert(orig.take(n as int) =~= orig);
    assert(pool@ =~= without_key(orig, k0));
    g
}

/// Groups tasks that share an action, a tag and a key, so that each group is
/// resolved with one set of requests. Groups come in the order of their first
/// task; tasks keep their order within a group.
pub fn group_tasks(tasks: Vec<UpdateTask>) -> (groups: Vec<Vec<UpdateTask>>)
    ensures
        groups@.len() == keys_in_order(tasks@).len(),
        forall|i: int|
            0 <= i < groups@.len() ==> (#[trigger] groups@[i])@ == with_key(
                tasks@,
                keys_in_order(tasks@)[i],
            ),
{
    let ghost all = tasks@;
    let keys = collect_keys(&tasks);
    let ghost kv = keys@.map_values(|k: (String, Option<String>, String)| key_view(k));
    proof {
        lemma_keys_distinct(all);
    }
    let mut pool = tasks;
    let mut groups: Vec<Vec<UpdateTask>> = Vec::new();
    let mut j: usize = 0;
    while j < keys.len()
        invariant
            0 <= j <= keys.len(),
            kv == keys@.map_values(|k: (String, Option<String>, String)| key_view(k)),
            kv == keys_in_order(all),
            kv.no_duplicates(),
            groups@.len() == j,
            forall|i: int| 0 <= i < j ==> (#[trigger] groups@[i])@ == with_key(all, kv[i]),
            forall|q| !kv.take(j as int).contains(q) ==> with_key(pool@, q) == with_key(all, q),
        decreases keys.len() - j,
    {
        let key = &keys[j];
        assert(kv[j as int] == key_view(*key));
        assert(!kv.take(j as int).contains(kv[j as int])) by {
            if kv.take(j as int).contains(kv[j as int]) {
                let m = choose|m: int| 0 <= m < j && kv.take(j as int)[m] == kv[j as int];
                assert(kv[m] == kv[j as int]);
            }
        }
        let ghost pool0 = pool@;
        let g = extract_key(&mut pool, key);
        proof {
            assert(kv.take(j + 1)[j as int] == kv[j as int]);
            assert(kv.take(j + 1).contains(kv[j as int]));
            assert forall|q| !kv.take(j + 1).contains(q) implies with_key(pool@, q) == with_key(all, q) by {
                assert(q != kv[j as int]);
                assert(!kv.take(j as int).contains(q)) by {
                    if kv.take(j as int).contains(q) {
                        let m = choose|m: int| 0 <= m < j && kv.take(j as int)[m] == q;
                        assert(kv.take(j + 1)[m] == q);
                    }
                }
                lemma_with_without(pool0, kv[j as int], q);
            }
        }
        groups.push(g);
        j = j + 1;
    }
    groups
}

/// One result per task of a group, all with the group's new reference and
/// tag.
pub fn results_for(tasks: Vec<UpdateTask>, sha: &DependencyRef, tag: &Option<String>) -> (r: Vec<UpdateResult>)
    ensures
        r@.len() == tasks@.len(),
        forall|i: int|
            0 <= i < r@.len() ==> {
                let x = #[trigger] r@[i];
                let t = tasks@[i];
                &&& x.task == t
                &&& x.action == t.action
                &&& x.path == t.path
                &&& x.old_tag == t.current_tag
                &&& x.new_sha == *sha
                &&& x.new_tag == *tag
            },
{
    let ghost all = tasks@;
    let mut tasks = tasks;
    let mut r: Vec<UpdateResult> = Vec::new();
    let n = tasks.len();
    let mut k: usize = 0;
    while k < n
        invariant
            n == all.len(),
            0 <= k <= n,
            tasks@ == all.skip(k as int),
            r@.len() == k,
            forall|i: int|
                0 <= i < k ==> {
                    let x = #[trigger] r@[i];
                    let t = all[i];
                    &&& x.task == t
                    &&& x.action == t.action
                    &&& x.path == t.path
                    &&& x.old_tag == t.current_tag
                    &&& x.new_sha == *sha
                    &&& x.new_tag == *tag
                },
        decreases n - k,
    {
        let t = tasks.remove(0);
        assert(t == all[k as int]);
        assert(all.skip(k + 1) =~= all.skip(k as int).remove(0));
        let res = UpdateResult {
            action: crate::domain::dependency::DependencyName(t.action.0.clone()),
            path: t.path.clone(),
            old_tag: copy_opt(&t.current_tag),
            task: t,
            new_sha: copy_ref(sha),
            new_tag: copy_opt(tag),
        };
        r.push(res);
        k = k + 1;
    }
    r
}

/// The results of all groups: the first fatal error among the outcomes, or
/// the results of the groups that resolved, in order. Groups that needed no
/// change, and groups that failed with a non-fatal error (such as one
/// repository that cannot be found), contribute nothing.
pub open spec fn combined(outcomes: Seq<Result<Option<Vec<UpdateResult>>, PinnerError>>) -> Result<Seq<UpdateResult>, PinnerError>
    decreases outcomes.len(),
{
    if outcomes.len() == 0 {
        Ok(Seq::empty())
    } else {
        match outcomes[0] {
            Err(e) => if crate::error::fatal(e) {
                Err(e)
            } else {
                combined(outcomes.drop_first())
            },
            Ok(o) => match combined(outcomes.drop_first()) {
                Ok(rest) => Ok(match o {
                    Some(v) => v@ + rest,
                    None => rest,
                }),
                Err(e) => Err(e),
            },
        }
    }
}

/// Combines the outcomes of the groups (see [`combined`]).
pub fn combine_outcomes(outcomes: Vec<Result<Option<Vec<UpdateResult>>, PinnerError>>) -> (r: Result<Vec<UpdateResult>, PinnerError>)
    ensures
        match (r, combined(outcomes@)) {
            (Ok(v), Ok(s)) => v@ == s,
            (Err(e), Err(f)) => e == f,
            _ => false,
        },
{
    let ghost all = outcomes@;
    let mut pending = outcomes;
    let mut acc: Vec<UpdateResult> = Vec::new();
    let n = pending.len();
    let mut k: usize = 0;
    assert(all.skip(0) =~= all);
    while k < n
        invariant
            n == all.len(),
            0 <= k <= n,
            pending@ == all.skip(k as int),
            all == outcomes@,
            match combined(all) {
                Ok(s) => match combined(all.skip(k as int)) {
                    Ok(rest) => s == acc@ + rest,
                    Err(_) => false,
                },
                Err(e) => combined(all.skip(k as int)) == Err::<Seq<UpdateResult>, PinnerError>(e),
            },
        decreases n - k,
    {
        let o = pending.remove(0);
        assert(o == all[k as int]);
        assert(all.skip(k + 1) =~= all.skip(k as int).remove(0));
        assert(all.skip(k as int).drop_first() =~= all.skip(k + 1));
        match o {
            Err(e) => {
                assert(all.skip(k as int)[0] == all[k as int]);
                if e.is_fatal() {
                    assert(combined(all.skip(k as int)) == Err::<Seq<UpdateResult>, PinnerError>(e));
                    return Err(e);
                }
            },
            Ok(Some(v)) => {
                let ghost before = acc@;
                let mut v = v;
                acc.append(&mut v);
                proof {
                    match combined(all) {
                        Ok(s) => {
                            let rest = combined(all.skip(k + 1))->Ok_0;
                            assert(s == before + (all[k as int]->Ok_0->Some_0@ + rest));
                            assert(before + (all[k as int]->Ok_0->Some_0@ + rest) =~= acc@ + rest);
                        },
                        Err(_) => {},
                    }
                }
            },
            Ok(None) => {},
        }
        k = k + 1;
    }
    assert(all.skip(n as int) =~= Seq::<Result<Option<Vec<UpdateResult>>, PinnerError>>::empty());
    Ok(acc)
}

/// The resolver's settings. The requests it decides on are made by the
/// executable, which holds the providers and bounds the concurrency.
pub struct Resolver {
    /// The strategy to use when upgrading (e.g., Latest, Major, Minor).
    pub upgrade_strategy: UpgradeStrategy,
    /// Maximum number of concurrent network requests.
    pub concurrency: usize,
}

impl Resolver {
    /// Creates a new `Resolver`.
    pub fn new(upgrade_strategy: UpgradeStrategy, concurrency: usize) -> (r: Self)
        ensures
            r.upgrade_strategy == upgrade_strategy,
            r.concurrency == concurrency,
    {
        Resolver { upgrade_strategy, concurrency }
    }

    /// The next step of resolving a task for pinning (`is_pin`) or for an
    /// upgrade with this resolver's strategy.
    pub fn resolve_step(&self, task: &UpdateTask, is_pin: bool, replies: &Vec<Fetched>) -> (r: Step)
        ensures
            is_pin ==> step_is(r, pin_spec(*task, replies@)),
            !is_pin ==> step_is(r, upgrade_spec(*task, self.upgrade_strategy, true, replies@)),
    {
        if is_pin {
            pin_step(task, replies)
        } else {
            upgrade_step(task, self.upgrade_strategy, true, replies)
        }
    }

    /// The next step of finding the upgrade candidate of a task, without
    /// checking that it is newer than the current tag.
    pub fn candidate_step(&self, task: &UpdateTask, replies: &Vec<Fetched>) -> (r: Step)
        ensures
            step_is(r, upgrade_spec(*task, self.upgrade_strategy, false, replies@)),
    {
        upgrade_step(task, self.upgrade_strategy, false, replies)
    }
}

} // verus!
