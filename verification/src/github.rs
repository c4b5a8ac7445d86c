//! GitHub-specific names, and the shapes of GitHub API replies.
use vstd::prelude::*;
use vstd::std_specs::convert::FromSpecImpl;

verus! {

/// A GitHub Action name (e.g., "actions/checkout").
#[derive(Debug, Clone, PartialEq, Eq, Hash)]
pub struct ActionName(pub String);

impl ActionName {
    /// The name as a string.
    pub fn to_string(&self) -> (r: String)
        ensures
            r@ == self.0@,
    {
        self.0.clone()
    }
}

impl From<String> for ActionName {
    fn from(s: String) -> (r: Self) {
        ActionName(s)
    }
}

impl FromSpecImpl<String> for ActionName {
    open spec fn obeys_from_spec() -> bool {
        true
    }

    open spec fn from_spec(v: String) -> Self {
        ActionName(v)
    }
}

impl<'a> From<&'a str> for ActionName {
    fn from(s: &'a str) -> (r: Self) {
        ActionName(s.to_owned())
    }
}

/// A `String` cannot be built from a view in specifications, so conversions from
/// `&str` carry no spec.
impl<'a> FromSpecImpl<&'a str> for ActionName {
    open spec fn obeys_from_spec() -> bool {
        false
    }

    open spec fn from_spec(v: &'a str) -> Self {
        vstd::pervasive::arbitrary()
    }
}

/// A Git commit SHA-1 hash.
#[derive(Debug, Clone, PartialEq, Eq)]
pub struct CommitSha(pub String);

impl CommitSha {
    /// The hash as a string.
    pub fn to_string(&self) -> (r: String)
        ensures
            r@ == self.0@,
    {
        self.0.clone()
    }
}

impl From<String> for CommitSha {
    fn from(s: String) -> (r: Self) {
        CommitSha(s)
    }
}

impl FromSpecImpl<String> for CommitSha {
    open spec fn obeys_from_spec() -> bool {
        true
    }

    open spec fn from_spec(v: String) -> Self {
        CommitSha(v)
    }
}

/// A Git branch name.
#[derive(Debug, Clone, PartialEq, Eq)]
pub struct BranchName(pub String);

impl BranchName {
    /// The branch as a string.
    pub fn to_string(&self) -> (r: String)
        ensures
            r@ == self.0@,
    {
        self.0.clone()
    }
}

impl From<String> for BranchName {
    fn from(s: String) -> (r: Self) {
        BranchName(s)
    }
}

impl FromSpecImpl<String> for BranchName {
    open spec fn obeys_from_spec() -> bool {
        true
    }

    open spec fn from_spec(v: String) -> Self {
        BranchName(v)
    }
}

/// The reply to a commit lookup.
#[derive(Debug, Clone, PartialEq, Eq)]
pub struct RefResponse {
    pub sha: String,
}

/// The reply to a latest-release lookup.
#[derive(Debug, Clone, PartialEq, Eq)]
pub struct ReleaseResponse {
    pub tag_name: String,
}

/// The reply to a repository lookup.
#[derive(Debug, Clone, PartialEq, Eq)]
pub struct RepoResponse {
    pub default_branch: String,
}

} // verus!
