//! Terminal colours, applied by the `colored` crate.
//!
//! Whether `colored` emits escape codes depends on the environment
//! (`NO_COLOR`, `CLICOLOR`, `CLICOLOR_FORCE`) and on overrides set at run time,
//! so each wrapper states what holds either way: the text comes back plain, or
//! wrapped in the style's escape code and the reset code. Texts that already
//! hold a reset code are re-styled inside by the crate; nothing is stated of
//! them.
use crate::text::contains;
use colored::Colorize;
use vstd::prelude::*;

verus! {

/// The ANSI code that resets all styles.
pub open spec fn reset_code() -> Seq<char> {
    "\x1B[0m"@
}

/// `r` is `s` rendered with the style whose SGR parameters are `code`.
pub open spec fn painted(s: Seq<char>, code: Seq<char>, r: Seq<char>) -> bool {
    contains(s, reset_code()) || r == s || r == "\x1B["@ + code + "m"@ + s + reset_code()
}

/// `s.red()`, rendered (`colored::Colorize::red`).
#[verifier::external_body]
pub(crate) fn red(s: &str) -> (r: String)
    ensures
        painted(s@, "31"@, r@),
{
    format!("{}", s.red())
}

/// `s.green()`, rendered (`colored::Colorize::green`).
#[verifier::external_body]
pub(crate) fn green(s: &str) -> (r: String)
    ensures
        painted(s@, "32"@, r@),
{
    format!("{}", s.green())
}

/// `s.yellow()`, rendered (`colored::Colorize::yellow`).
#[verifier::external_body]
pub(crate) fn yellow(s: &str) -> (r: String)
    ensures
        painted(s@, "33"@, r@),
{
    format!("{}", s.yellow())
}

/// `s.magenta()`, rendered (`colored::Colorize::magenta`).
#[verifier::external_body]
pub(crate) fn magenta(s: &str) -> (r: String)
    ensures
        painted(s@, "35"@, r@),
{
    format!("{}", s.magenta())
}

/// `s.cyan()`, rendered (`colored::Colorize::cyan`).
#[verifier::external_body]
pub(crate) fn cyan(s: &str) -> (r: String)
    ensures
        painted(s@, "36"@, r@),
{
    format!("{}", s.cyan())
}

/// `s.dimmed()`, rendered (`colored::Colorize::dimmed`).
#[verifier::external_body]
pub(crate) fn dimmed(s: &str) -> (r: String)
    ensures
        painted(s@, "2"@, r@),
{
    format!("{}", s.dimmed())
}

/// `s.green().bold()`, rendered (`colored::Colorize::green`, `bold`).
#[verifier::external_body]
pub(crate) fn green_bold(s: &str) -> (r: String)
    ensures
        painted(s@, "1;32"@, r@),
{
    format!("{}", s.green().bold())
}

/// `s.red().bold()`, rendered (`colored::Colorize::red`, `bold`).
#[verifier::external_body]
pub(crate) fn red_bold(s: &str) -> (r: String)
    ensures
        painted(s@, "1;31"@, r@),
{
    format!("{}", s.red().bold())
}

/// `s.yellow().bold()`, rendered (`colored::Colorize::yellow`, `bold`).
#[verifier::external_body]
pub(crate) fn yellow_bold(s: &str) -> (r: String)
    ensures
        painted(s@, "1;33"@, r@),
{
    format!("{}", s.yellow().bold())
}

/// `s.bold().cyan()`, rendered (`colored::Colorize::bold`, `cyan`).
#[verifier::external_body]
pub(crate) fn cyan_bold(s: &str) -> (r: String)
    ensures
        painted(s@, "1;36"@, r@),
{
    format!("{}", s.bold().cyan())
}

} // verus!
