//! The decisions of the pinning pipeline: what to report, what to request and
//! what to write, from plain values handed over by the executable.
pub mod findings;
pub mod init;
pub mod pr;
pub mod sbom;
pub mod scan;
pub mod verify;

use crate::domain::dependency::{DependencyName, DependencyRef};
use crate::domain::update::{UpdateResult, UpdateTask};
use crate::resolver::plan::ref_from;
use crate::text::str_eq;
use vstd::prelude::*;

verus! {

/// The updates that set every dependency on `action` to `hash`: one per
/// such task, in order, recording the old tag and no new tag.
pub open spec fn set_updates_of(ts: Seq<UpdateTask>, action: Seq<char>, hash: String) -> Seq<UpdateResult>
    decreases ts.len(),
{
    if ts.len() == 0 {
        Seq::empty()
    } else {
        let prev = set_updates_of(ts.drop_last(), action, hash);
        let t = ts.last();
        if t.action.0@ == action {
            prev.push(
                UpdateResult {
                    task: t,
                    action: t.action,
                    path: t.path,
                    old_tag: t.current_tag,
                    new_sha: ref_from(hash),
                    new_tag: None,
                },
            )
        } else {
            prev
        }
    }
}

fn copy_opt(o: &Option<String>) -> (r: Option<String>)
    ensures
        r == *o,
{
    match o {
        Some(s) => Some(s.clone()),
        None => None,
    }
}

/// Forcibly sets a specific action to a provided hash (see
/// [`set_updates_of`]).
pub fn set_updates(tasks: Vec<UpdateTask>, action: &str, hash: &str) -> (r: Vec<UpdateResult>)
    ensures
        exists|h: String| h@ == hash@ && r@ == set_updates_of(tasks@, action@, h),
{
    let h = hash.to_string();
    let ghost orig = tasks@;
    let mut rest = tasks;
    assert(orig.len() == rest.len());
    let mut out: Vec<UpdateResult> = Vec::new();
    let mut k: usize = 0;
    while rest.len() > 0
        invariant
            k + rest@.len() == orig.len(),
            orig.len() <= usize::MAX,
            rest@ == orig.skip(k as int),
            out@ == set_updates_of(orig.take(k as int), action@, h),
        decreases rest.len(),
    {
        let t = rest.remove(0);
        assert(orig.take(k + 1).drop_last() =~= orig.take(k as int));
        assert(orig.take(k + 1).last() == t);
        assert(rest@ =~= orig.skip(k + 1));
        if str_eq(t.action.0.as_str(), action) {
            let r = UpdateResult {
                action: DependencyName(t.action.0.clone()),
                path: t.path.clone(),
                old_tag: copy_opt(&t.current_tag),
                new_sha: DependencyRef::from_string(h.clone()),
                new_tag: None,
                task: t,
            };
            out.push(r);
        }
        k = k + 1;
    }
    assert(orig.take(k as int) =~= orig);
    out
}

} // verus!
