//! Tasks found in workflow files and the outcomes of resolving them.
use crate::domain::dependency::{CiProvider, DependencyName, DependencyRef};
use crate::pattern::{regex_group, regex_group_span, span_text, version_comment_pattern, version_comment_regex, well_placed};
use crate::text::{byte_to_char_pos, char_is_hex, chars_of, has_prefix, is_hex, slice_chars, starts_with, string_of};
use vstd::prelude::*;

verus! {

/// The view of an optional string.
pub open spec fn opt_view(o: Option<String>) -> Option<Seq<char>> {
    match o {
        Some(s) => Some(s@),
        None => None,
    }
}

/// A reference that is already immutable: a 40-character hexadecimal Git SHA
/// or a `sha256:` digest. (A string of hexadecimal digits has as many bytes as
/// characters, so this agrees with a byte-length test.)
pub open spec fn is_sha(t: Seq<char>) -> bool {
    (t.len() == 40 && forall|i: int| 0 <= i < 40 ==> is_hex(#[trigger] t[i])) || has_prefix(
        t,
        "sha256:"@,
    )
}

/// A 40-character hexadecimal Git commit SHA.
pub open spec fn is_git_sha(t: Seq<char>) -> bool {
    t.len() == 40 && forall|i: int| 0 <= i < 40 ==> is_hex(#[trigger] t[i])
}

pub fn is_git_sha_exec(t: &Vec<char>) -> (r: bool)
    ensures
        r == is_git_sha(t@),
{
    if t.len() != 40 {
        return false;
    }
    let mut i: usize = 0;
    while i < 40
        invariant
            0 <= i <= 40,
            t.len() == 40,
            forall|j: int| 0 <= j < i ==> is_hex(#[trigger] t@[j]),
        decreases 40 - i,
    {
        if !char_is_hex(t[i]) {
            return false;
        }
        i = i + 1;
    }
    true
}

pub fn is_sha_exec(t: &Vec<char>) -> (r: bool)
    ensures
        r == is_sha(t@),
{
    is_git_sha_exec(t) || starts_with(t, &chars_of("sha256:"))
}

/// A specific location in a file that needs to be updated.
#[derive(Debug, Clone, Default)]
pub struct UpdateTask {
    /// Path to the file containing the dependency.
    pub path: String,
    /// Byte offset where the dependency value starts.
    pub start: usize,
    /// Byte offset where the dependency value ends.
    pub end: usize,
    /// Line number where the dependency is located (1-based).
    pub line: usize,
    /// Column number where the dependency is located (1-based).
    pub column: usize,
    /// The name of the action or dependency.
    pub action: DependencyName,
    /// The current symbolic tag or ref (e.g., `v3`).
    pub current_tag: Option<String>,
    /// Any existing comment following the dependency on the same line.
    pub comment: Option<String>,
    /// Comment lines directly above the dependency.
    pub preceding_comments: Option<String>,
    /// The YAML key used to define this dependency (e.g., `uses`, `image`, `pipe`).
    pub key: String,
    /// The CI provider of the file that holds the dependency.
    pub provider: CiProvider,
}

/// The tag a task stands for: its current tag, unless that tag is a SHA or a
/// digest followed by a version comment (`# v1.2.3`), in which case the
/// version named by the comment.
pub open spec fn logical_tag_of(tag: Seq<char>, comment: Option<Seq<char>>) -> Seq<char> {
    match comment {
        Some(c) => if is_sha(tag) && regex_group_span(version_comment_pattern(), c, 1) is Some {
            span_text(c, regex_group_span(version_comment_pattern(), c, 1)->0)
        } else {
            tag
        },
        None => tag,
    }
}

impl UpdateTask {
    /// Returns the logical tag of this dependency: for a task pinned to a SHA or
    /// digest, the version named in its trailing comment (e.g. `# v1.2.3`).
    pub fn logical_tag(&self) -> (r: Option<String>)
        ensures
            self.current_tag is None ==> r is None,
            self.current_tag matches Some(t) ==> (r matches Some(s) && s@ == logical_tag_of(
                t@,
                opt_view(self.comment),
            )),
    {
        let tag = match &self.current_tag {
            Some(t) => t,
            None => return None,
        };
        let tv = chars_of(tag.as_str());
        if is_sha_exec(&tv) {
            if let Some(comment) = &self.comment {
                if let Some(span) = regex_group(version_comment_regex(), comment.as_str(), 1) {
                    let cv = chars_of(comment.as_str());
                    let a = byte_to_char_pos(&cv, span.0);
                    let b = byte_to_char_pos(&cv, span.1);
                    if let (Some(a), Some(b)) = (a, b) {
                        proof {
                            crate::text::lemma_char_pos(cv@, a as int, span.0 as int);
                            crate::text::lemma_char_pos(cv@, b as int, span.1 as int);
                            crate::text::lemma_byte_pos_order(cv@, a as int, b as int, span.0 as int, span.1 as int);
                        }
                        return Some(string_of(&slice_chars(&cv, a, b)));
                    }
                }
            }
        }
        Some(tag.clone())
    }
}

/// The result of a successful update resolution.
#[derive(Debug, Clone)]
pub struct UpdateResult {
    /// The task that was executed.
    pub task: UpdateTask,
    /// The name of the updated action.
    pub action: DependencyName,
    /// The path to the modified file.
    pub path: String,
    /// The previous tag or ref.
    pub old_tag: Option<String>,
    /// The new immutable SHA or digest.
    pub new_sha: DependencyRef,
    /// The new tag (used as a comment for readability).
    pub new_tag: Option<String>,
}

/// Machine-readable summary of updates.
pub struct JsonOutput {
    /// List of all successful updates.
    pub updates: Vec<UpdateResult>,
}

/// A dependency that is not yet pinned to an immutable reference.
#[derive(Debug, Clone)]
pub struct UnpinnedDependency {
    pub path: String,
    pub action: DependencyName,
    pub tag: Option<String>,
    pub line: usize,
    pub column: usize,
}

/// A dependency that is pinned but marked as compromised.
#[derive(Debug, Clone)]
pub struct CompromisedDependency {
    pub path: String,
    pub action: DependencyName,
    pub hash: String,
    pub line: usize,
    pub column: usize,
}

/// A dependency that is not explicitly vetted under strict mode.
#[derive(Debug, Clone)]
pub struct NonVettedDependency {
    pub path: String,
    pub action: DependencyName,
    pub tag: Option<String>,
    pub line: usize,
    pub column: usize,
}

/// The result of a verification operation.
#[derive(Debug, Clone, Default)]
pub struct VerificationResult {
    pub unpinned: Vec<UnpinnedDependency>,
    pub compromised: Vec<CompromisedDependency>,
    pub non_vetted: Vec<NonVettedDependency>,
}

impl VerificationResult {
    /// True when no unpinned, compromised, or non-vetted dependencies were found.
    pub fn is_success(&self) -> (r: bool)
        ensures
            r == (self.unpinned@.len() == 0 && self.compromised@.len() == 0
                && self.non_vetted@.len() == 0),
    {
        self.unpinned.len() == 0 && self.compromised.len() == 0 && self.non_vetted.len() == 0
    }
}

} // verus!
