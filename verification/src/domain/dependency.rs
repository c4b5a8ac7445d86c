//! Domain values that name a dependency and the references it can be pinned to.
use crate::text::{chars_of, has_prefix, starts_with, slice_chars, string_of};
use vstd::prelude::*;
use vstd::std_specs::convert::FromSpecImpl;

verus! {

/// A dependency name, such as a GitHub Action (`actions/checkout`) or a
/// container image (`alpine`).
#[derive(Debug, Clone, PartialEq, Eq, Hash, Default)]
pub struct DependencyName(pub String);

impl DependencyName {
    /// The name as a string.
    pub fn to_string(&self) -> (r: String)
        ensures
            r@ == self.0@,
    {
        self.0.clone()
    }

    /// True for names written with the `docker://` scheme.
    pub fn is_docker(&self) -> (r: bool)
        ensures
            r == has_prefix(self.0@, "docker://"@),
    {
        let v = chars_of(self.0.as_str());
        starts_with(&v, &chars_of("docker://"))
    }

    /// The name without a leading `docker://` scheme.
    pub fn trim_docker_prefix(&self) -> (r: String)
        ensures
            has_prefix(self.0@, "docker://"@) ==> r@ == self.0@.skip(9),
            !has_prefix(self.0@, "docker://"@) ==> r@ == self.0@,
    {
        let v = chars_of(self.0.as_str());
        let p = chars_of("docker://");
        if starts_with(&v, &p) {
            proof {
                reveal_strlit("docker://");
            }
            string_of(&slice_chars(&v, 9, v.len()))
        } else {
            self.0.clone()
        }
    }
}

impl From<String> for DependencyName {
    fn from(s: String) -> (r: Self) {
        DependencyName(s)
    }
}

impl FromSpecImpl<String> for DependencyName {
    open spec fn obeys_from_spec() -> bool {
        true
    }

    open spec fn from_spec(v: String) -> Self {
        DependencyName(v)
    }
}

impl From<&str> for DependencyName {
    fn from(s: &str) -> (r: Self) {
        DependencyName(s.to_owned())
    }
}

/// A `String` cannot be built from a view in specifications, so conversions from
/// `&str` carry no spec; verified code uses `dependency_name`.
impl FromSpecImpl<&str> for DependencyName {
    open spec fn obeys_from_spec() -> bool {
        false
    }

    open spec fn from_spec(v: &str) -> Self {
        vstd::pervasive::arbitrary()
    }
}

/// Builds a dependency name from a string slice.
pub fn dependency_name(s: &str) -> (r: DependencyName)
    ensures
        r.0@ == s@,
{
    DependencyName(s.to_owned())
}

/// An immutable (or versioned) dependency reference.
#[derive(Debug, Clone, PartialEq, Eq)]
pub enum DependencyRef {
    /// A Git commit SHA (usually 40 characters).
    GitSha(String),
    /// An OCI/Docker content digest (prefixed with `sha256:`).
    DockerDigest(String),
    /// A semantic version that is already immutable (such as a CircleCI orb).
    Version(String),
}

impl DependencyRef {
    /// The text of the reference, whatever its kind.
    pub open spec fn text(&self) -> Seq<char> {
        match self {
            DependencyRef::GitSha(s) => s@,
            DependencyRef::DockerDigest(s) => s@,
            DependencyRef::Version(s) => s@,
        }
    }

    /// The reference as a string.
    pub fn to_string(&self) -> (r: String)
        ensures
            r@ == self.text(),
    {
        match self {
            DependencyRef::GitSha(s) => s.clone(),
            DependencyRef::DockerDigest(s) => s.clone(),
            DependencyRef::Version(s) => s.clone(),
        }
    }

    /// Classifies a reference string: digests start with `sha256:`, everything
    /// else is a Git SHA.
    pub fn from_string(s: String) -> (r: Self)
        ensures
            has_prefix(s@, "sha256:"@) ==> r == DependencyRef::DockerDigest(s),
            !has_prefix(s@, "sha256:"@) ==> r == DependencyRef::GitSha(s),
    {
        let v = chars_of(s.as_str());
        if starts_with(&v, &chars_of("sha256:")) {
            DependencyRef::DockerDigest(s)
        } else {
            DependencyRef::GitSha(s)
        }
    }
}

impl From<String> for DependencyRef {
    fn from(s: String) -> (r: Self) {
        DependencyRef::from_string(s)
    }
}

impl FromSpecImpl<String> for DependencyRef {
    open spec fn obeys_from_spec() -> bool {
        true
    }

    open spec fn from_spec(v: String) -> Self {
        if has_prefix(v@, "sha256:"@) {
            DependencyRef::DockerDigest(v)
        } else {
            DependencyRef::GitSha(v)
        }
    }
}

/// A Git branch name.
#[derive(Debug, Clone, PartialEq, Eq)]
pub struct BranchName(pub String);

impl BranchName {
    /// The branch name as a string.
    pub fn to_string(&self) -> (r: String)
        ensures
            r@ == self.0@,
    {
        self.0.clone()
    }
}

impl From<String> for BranchName {
    fn from(s: String) -> (r: Self) {
        BranchName(s)
    }
}

impl FromSpecImpl<String> for BranchName {
    open spec fn obeys_from_spec() -> bool {
        true
    }

    open spec fn from_spec(v: String) -> Self {
        BranchName(v)
    }
}

/// The CI/CD system a workflow file belongs to.
#[derive(Debug, Clone, Copy, PartialEq, Eq, Default)]
pub enum CiProvider {
    GitHub,
    Forgejo,
    Gitea,
    GitLab,
    Bitbucket,
    CircleCI,
    AzureDevOps,
    AwsCodeBuild,
    Tekton,
    Kubernetes,
    #[default]
    Unknown,
}

} // verus!
