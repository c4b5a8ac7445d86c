//! The components of a CycloneDX software bill of materials.
use crate::domain::update::UpdateTask;
use crate::text::{chars_of, concat, contains, contains_exec, owned, string_of};
use vstd::prelude::*;

verus! {

/// One component of the bill of materials.
#[derive(Debug, Clone, PartialEq, Eq)]
pub struct Component {
    pub name: String,
    pub version: String,
    /// `library` for repository actions, `container` for images.
    pub component_type: String,
    /// The package URL.
    pub purl: String,
}

pub type ComponentView = (Seq<char>, Seq<char>, Seq<char>, Seq<char>);

pub open spec fn component_view(c: Component) -> ComponentView {
    (c.name@, c.version@, c.component_type@, c.purl@)
}

/// A text without its `@` characters.
pub open spec fn without_at(s: Seq<char>) -> Seq<char>
    decreases s.len(),
{
    if s.len() == 0 {
        Seq::empty()
    } else if s.last() == '@' {
        without_at(s.drop_last())
    } else {
        without_at(s.drop_last()).push(s.last())
    }
}

/// The component of a task: a name with a `/` and no `.` is a GitHub
/// repository (`pkg:github/name@version`, without any `@` in the version);
/// anything else is a container image (`pkg:oci/name@version`). A task
/// without a tag is at `latest`.
pub open spec fn component_of(t: UpdateTask) -> ComponentView {
    let name = t.action.0@;
    let version = match t.current_tag {
        Some(v) => v@,
        None => "latest"@,
    };
    if contains(name, "/"@) && !contains(name, "."@) {
        (name, version, "library"@, "pkg:github/"@ + name + "@"@ + without_at(version))
    } else {
        (name, version, "container"@, "pkg:oci/"@ + name + "@"@ + version)
    }
}

/// The component of a task names the task's dependency at the task's tag
/// (`latest` only without one), and its package URL points at exactly that
/// name and version: `pkg:oci/{name}@{version}` for a container,
/// `pkg:github/{name}@{version}` (without `@` in the version) for a
/// repository, which is a name with a `/` and no `.`.
pub proof fn lemma_component_names_its_version(t: UpdateTask)
    ensures
        component_of(t).0 == t.action.0@,
        component_of(t).1 == (match t.current_tag {
            Some(v) => v@,
            None => "latest"@,
        }),
        component_of(t).2 == "container"@ || component_of(t).2 == "library"@,
        component_of(t).2 == "library"@ <==> contains(t.action.0@, "/"@) && !contains(t.action.0@, "."@),
        component_of(t).2 == "container"@ ==> component_of(t).3 == "pkg:oci/"@ + component_of(t).0 + "@"@ + component_of(t).1,
        component_of(t).2 == "library"@ ==> component_of(t).3 == "pkg:github/"@ + component_of(t).0 + "@"@ + without_at(
            component_of(t).1,
        ),
{
    reveal_strlit("container");
    reveal_strlit("library");
    assert("container"@.len() == 9 && "library"@.len() == 7);
    assert("container"@ != "library"@);
}

fn without_at_exec(s: &Vec<char>) -> (r: Vec<char>)
    ensures
        r@ == without_at(s@),
{
    let mut out: Vec<char> = Vec::new();
    let mut i: usize = 0;
    while i < s.len()
        invariant
            0 <= i <= s.len(),
            out@ == without_at(s@.take(i as int)),
        decreases s.len() - i,
    {
        assert(s@.take(i + 1).drop_last() =~= s@.take(i as int));
        assert(s@.take(i + 1).last() == s@[i as int]);
        if s[i] != '@' {
            out.push(s[i]);
        }
        i = i + 1;
    }
    assert(s@.take(s.len() as int) =~= s@);
    out
}

/// The component of a task (see [`component_of`]).
pub fn component(task: &UpdateTask) -> (r: Component)
    ensures
        component_view(r) == component_of(*task),
{
    let name = task.action.0.clone();
    let version = match &task.current_tag {
        Some(v) => v.clone(),
        None => owned("latest"),
    };
    let n = chars_of(name.as_str());
    if contains_exec(&n, &chars_of("/")) && !contains_exec(&n, &chars_of(".")) {
        let v = string_of(&without_at_exec(&chars_of(version.as_str())));
        let a = concat("pkg:github/", name.as_str());
        let b = concat(a.as_str(), "@");
        let purl = concat(b.as_str(), v.as_str());
        Component { name, version, component_type: owned("library"), purl }
    } else {
        let a = concat("pkg:oci/", name.as_str());
        let b = concat(a.as_str(), "@");
        let purl = concat(b.as_str(), version.as_str());
        Component { name, version, component_type: owned("container"), purl }
    }
}

/// The components of all tasks, in order.
pub fn components(tasks: &Vec<UpdateTask>) -> (r: Vec<Component>)
    ensures
        r@.map_values(|c: Component| component_view(c)) == tasks@.map_values(|t: UpdateTask| component_of(t)),
{
    let mut out: Vec<Component> = Vec::new();
    let mut i: usize = 0;
    while i < tasks.len()
        invariant
            0 <= i <= tasks.len(),
            out@.map_values(|c: Component| component_view(c)) == tasks@.take(i as int).map_values(|t: UpdateTask| component_of(t)),
        decreases tasks.len() - i,
    {
        let c = component(&tasks[i]);
        let ghost before = out@.map_values(|c: Component| component_view(c));
        out.push(c);
        assert(tasks@.take(i + 1) =~= tasks@.take(i as int).push(tasks@[i as int]));
        assert(out@.map_values(|c: Component| component_view(c)) =~= before.push(component_view(c)));
        assert(out@.map_values(|c: Component| component_view(c)) =~= tasks@.take(i + 1).map_values(|t: UpdateTask| component_of(t)));
        i = i + 1;
    }
    assert(tasks@.take(tasks.len() as int) =~= tasks@);
    out
}

} // verus!
