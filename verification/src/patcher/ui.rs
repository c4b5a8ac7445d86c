//! What the console asks and tells while patching: which upgrades are
//! offered, how each is shown, and which ones the user kept.
use crate::domain::update::{opt_view, UpdateResult};
use crate::style::{cyan, green, green_bold, magenta, painted, yellow};
use crate::text::{concat, str_eq};
use vstd::prelude::*;

verus! {

/// The console's way of confirming patches.
pub struct ConsoleUi {
    /// Every patch is applied without asking.
    pub yes: bool,
}

impl ConsoleUi {
    pub fn new(yes: bool) -> (r: Self)
        ensures
            r.yes == yes,
    {
        ConsoleUi { yes }
    }

    /// Whether a patch is applied without asking the user.
    pub fn confirms_without_prompt(&self) -> (r: bool)
        ensures
            r == self.yes,
    {
        self.yes
    }
}

/// The decisions of an interaction style while patching: whether a patch is
/// applied, what is said after it, and what an upgrade prompt comes to. The
/// questions themselves are asked by the executable.
pub trait UserInterface {
    /// Whether a patch to a file is applied, given the user's answer to the
    /// question, where one was asked.
    fn confirm_patch(&self, answer: Option<bool>) -> (r: bool);

    /// The line printed after the file at `path` was updated.
    fn report_success(&self, path: &str) -> (r: String);

    /// The line printed after the file at `path` was skipped.
    fn report_skipped(&self, path: &str) -> (r: String);

    /// What to do with the results of an upgrade.
    fn prompt_upgrade(&self, results: Vec<UpdateResult>) -> (r: UpgradePrompt);
}

impl UserInterface for ConsoleUi {
    /// Whether a patch is applied: at once where every patch is, else as the
    /// user answered the question about it (`None`: it could not be asked,
    /// which counts as no).
    fn confirm_patch(&self, answer: Option<bool>) -> (r: bool)
        ensures
            r == (self.yes || answer == Some(true)),
    {
        if self.yes {
            return true;
        }
        match answer {
            Some(a) => a,
            None => false,
        }
    }

    /// The line printed after the file at `path` was updated.
    fn report_success(&self, path: &str) -> (r: String)
        ensures
            painted("✔ Updated successfully"@, "32"@, r@),
    {
        green("✔ Updated successfully")
    }

    /// The line printed after the file at `path` was skipped.
    fn report_skipped(&self, path: &str) -> (r: String)
        ensures
            painted("✘ Skipped"@, "33"@, r@),
    {
        yellow("✘ Skipped")
    }

    /// What to do with the results of an upgrade: with no results, or none
    /// that offers an upgrade, nothing is asked and nothing kept, and the
    /// matching message is printed; else the user is asked about the offered
    /// upgrades (see [`offered`]), each listed by its line.
    fn prompt_upgrade(&self, results: Vec<UpdateResult>) -> (r: UpgradePrompt)
        ensures
            results@.len() == 0 ==> (r matches UpgradePrompt::Settled { results: kept, message } && kept@.len() == 0
                && painted("✔ No upgrades found."@, "1;32"@, message@)),
            results@.len() > 0 && offered(results@).len() == 0 ==> (r matches UpgradePrompt::Settled {
                results: kept,
                message,
            } && kept@.len() == 0 && painted("✔ All dependencies are already up to date."@, "1;32"@, message@)),
            offered(results@).len() > 0 ==> (r matches UpgradePrompt::Ask { offered: o, items } && o@ == offered(
                results@,
            ) && items@.len() == o@.len() && forall|i: int| 0 <= i < o@.len() ==> #[trigger] listed_as(o@[i], items@[i]@)),
    {
        if results.len() == 0 {
            return UpgradePrompt::Settled { results, message: no_upgrades_message() };
        }
        let o = pending_upgrades(results);
        if o.len() == 0 {
            return UpgradePrompt::Settled { results: o, message: up_to_date_message() };
        }
        let mut items: Vec<String> = Vec::new();
        let mut i: usize = 0;
        while i < o.len()
            invariant
                0 <= i <= o.len(),
                items@.len() == i,
                forall|j: int| 0 <= j < i ==> #[trigger] listed_as(o@[j], items@[j]@),
            decreases o.len() - i,
        {
            items.push(upgrade_item(&o[i]));
            i = i + 1;
        }
        UpgradePrompt::Ask { offered: o, items }
    }
}

/// An interaction style with a fixed answer, for running the pipeline without
/// a console: every patch is applied or skipped as `response` says, nothing
/// is said, and every upgrade offered is kept.
pub struct TestUi {
    /// The answer to every confirmation.
    pub response: bool,
}

impl UserInterface for TestUi {
    fn confirm_patch(&self, answer: Option<bool>) -> (r: bool)
        ensures
            r == self.response,
    {
        self.response
    }

    fn report_success(&self, path: &str) -> (r: String)
        ensures
            r@.len() == 0,
    {
        String::new()
    }

    fn report_skipped(&self, path: &str) -> (r: String)
        ensures
            r@.len() == 0,
    {
        String::new()
    }

    fn prompt_upgrade(&self, results: Vec<UpdateResult>) -> (r: UpgradePrompt)
        ensures
            r matches UpgradePrompt::Settled { results: kept, message } && kept@ == results@ && message@.len() == 0,
    {
        UpgradePrompt::Settled { results, message: String::new() }
    }
}

/// What an upgrade prompt comes to.
pub enum UpgradePrompt {
    /// Nothing to ask: the results kept and the message to print.
    Settled { results: Vec<UpdateResult>, message: String },
    /// The upgrades to ask about, and the line that lists each.
    Ask { offered: Vec<UpdateResult>, items: Vec<String> },
}

/// A result offers an upgrade: it has a new tag, other than the old one.
pub open spec fn offers_upgrade(r: UpdateResult) -> bool {
    r.new_tag is Some && opt_view(r.new_tag) != opt_view(r.old_tag)
}

/// The results that offer an upgrade, in order.
pub open spec fn offered(rs: Seq<UpdateResult>) -> Seq<UpdateResult>
    decreases rs.len(),
{
    if rs.len() == 0 {
        Seq::empty()
    } else if offers_upgrade(rs.last()) {
        offered(rs.drop_last()).push(rs.last())
    } else {
        offered(rs.drop_last())
    }
}

fn opt_text_eq(a: &Option<String>, b: &Option<String>) -> (r: bool)
    ensures
        r == (opt_view(*a) == opt_view(*b)),
{
    match (a, b) {
        (Some(x), Some(y)) => str_eq(x.as_str(), y.as_str()),
        (None, None) => true,
        _ => false,
    }
}

/// The results the user is asked about: those that offer an upgrade (see
/// [`offers_upgrade`]).
pub fn pending_upgrades(results: Vec<UpdateResult>) -> (r: Vec<UpdateResult>)
    ensures
        r@ == offered(results@),
{
    let ghost orig = results@;
    let mut rest = results;
    assert(orig.len() == rest.len());
    let mut out: Vec<UpdateResult> = Vec::new();
    let mut k: usize = 0;
    while rest.len() > 0
        invariant
            k + rest@.len() == orig.len(),
            orig.len() <= usize::MAX,
            rest@ == orig.skip(k as int),
            out@ == offered(orig.take(k as int)),
        decreases rest.len(),
    {
        let r = rest.remove(0);
        assert(orig.take(k + 1).drop_last() =~= orig.take(k as int));
        assert(orig.take(k + 1).last() == r);
        assert(rest@ =~= orig.skip(k + 1));
        let keep = r.new_tag.is_some() && !opt_text_eq(&r.new_tag, &r.old_tag);
        if keep {
            out.push(r);
        }
        k = k + 1;
    }
    assert(orig.take(k as int) =~= orig);
    out
}

/// How an offered upgrade is listed: action, old tag (or `latest`), new tag
/// (or `unknown`) and path, each in its colour.
pub open spec fn upgrade_line(r: UpdateResult, action: Seq<char>, old: Seq<char>, new: Seq<char>, path: Seq<char>) -> Seq<char> {
    action + "@"@ + old + " -> "@ + new + " ("@ + path + ")"@
}

/// `s` lists the offered upgrade `r`: its line (see [`upgrade_line`]) with
/// the action in yellow, the old tag (or `latest`) in magenta, the new tag (or
/// `unknown`) in green and the path in cyan.
pub open spec fn listed_as(r: UpdateResult, s: Seq<char>) -> bool {
    exists|a: Seq<char>, o: Seq<char>, n: Seq<char>, p: Seq<char>|
            #![trigger upgrade_line(r, a, o, n, p)]
            s == upgrade_line(r, a, o, n, p) && painted(r.action.0@, "33"@, a) && painted(
                match r.old_tag {
                    Some(t) => t@,
                    None => "latest"@,
                },
                "35"@,
                o,
            ) && painted(
                match r.new_tag {
                    Some(t) => t@,
                    None => "unknown"@,
                },
                "32"@,
                n,
            ) && painted(r.path@, "36"@, p)
}

/// The line that lists an offered upgrade (see [`listed_as`]).
pub fn upgrade_item(r: &UpdateResult) -> (s: String)
    ensures
        listed_as(*r, s@),
{
    let a = yellow(r.action.0.as_str());
    let o = match &r.old_tag {
        Some(t) => magenta(t.as_str()),
        None => magenta("latest"),
    };
    let n = match &r.new_tag {
        Some(t) => green(t.as_str()),
        None => green("unknown"),
    };
    let p = cyan(r.path.as_str());
    let s1 = concat(a.as_str(), "@");
    let s2 = concat(s1.as_str(), o.as_str());
    let s3 = concat(s2.as_str(), " -> ");
    let s4 = concat(s3.as_str(), n.as_str());
    let s5 = concat(s4.as_str(), " (");
    let s6 = concat(s5.as_str(), p.as_str());
    let s = concat(s6.as_str(), ")");
    assert(s@ == upgrade_line(*r, a@, o@, n@, p@));
    s
}

/// The results whose positions the user selected, in order of position.
pub open spec fn selected(rs: Seq<UpdateResult>, chosen: Seq<usize>) -> Seq<UpdateResult>
    decreases rs.len(),
{
    if rs.len() == 0 {
        Seq::empty()
    } else if chosen.contains((rs.len() - 1) as usize) {
        selected(rs.drop_last(), chosen).push(rs.last())
    } else {
        selected(rs.drop_last(), chosen)
    }
}

fn holds(v: &Vec<usize>, x: usize) -> (r: bool)
    ensures
        r == v@.contains(x),
{
    let mut i: usize = 0;
    while i < v.len()
        invariant
            0 <= i <= v.len(),
            forall|j: int| 0 <= j < i ==> v@[j] != x,
        decreases v.len() - i,
    {
        if v[i] == x {
            return true;
        }
        i = i + 1;
    }
    false
}

/// The upgrades the user kept: the results at the selected positions. The
/// selection dialog reports positions in increasing order, so this is the
/// list of the selected results in the order they were offered.
pub fn chosen_upgrades(results: Vec<UpdateResult>, chosen: &Vec<usize>) -> (r: Vec<UpdateResult>)
    ensures
        r@ == selected(results@, chosen@),
{
    let ghost orig = results@;
    let mut rest = results;
    assert(orig.len() == rest.len());
    let mut out: Vec<UpdateResult> = Vec::new();
    let mut k: usize = 0;
    while rest.len() > 0
        invariant
            k + rest@.len() == orig.len(),
            orig.len() <= usize::MAX,
            rest@ == orig.skip(k as int),
            out@ == selected(orig.take(k as int), chosen@),
        decreases rest.len(),
    {
        let r = rest.remove(0);
        assert(orig.take(k + 1).drop_last() =~= orig.take(k as int));
        assert(orig.take(k + 1).last() == r);
        assert(rest@ =~= orig.skip(k + 1));
        if holds(chosen, k) {
            out.push(r);
        }
        k = k + 1;
    }
    assert(orig.take(k as int) =~= orig);
    out
}

/// The message when no upgrade was found at all.
pub fn no_upgrades_message() -> (r: String)
    ensures
        painted("✔ No upgrades found."@, "1;32"@, r@),
{
    green_bold("✔ No upgrades found.")
}

/// The message when every dependency is up to date already.
pub fn up_to_date_message() -> (r: String)
    ensures
        painted("✔ All dependencies are already up to date."@, "1;32"@, r@),
{
    green_bold("✔ All dependencies are already up to date.")
}

} // verus!
