//! The regular-expression engine, as far as the resolvers use it.
//!
//! Nothing in this module is proved. Each function below calls the `regex`
//! crate, and its contract gives the call's result a name, so that the
//! contracts of the resolvers can speak of it. A pattern is handed over as
//! text and compiled by the call that uses it, so every result is that of
//! the pattern's text and of nothing else.

use regex::Regex;
use vstd::prelude::*;

verus! {

/// Whether `Regex::new` accepts the pattern.
pub uninterp spec fn regex_compiles(pattern: Seq<char>) -> bool;

/// The capture groups of the compiled pattern, in the order of
/// `Regex::capture_names`: one entry for each group, the whole match included,
/// holding the group's name where it has one.
pub uninterp spec fn regex_capture_names(pattern: Seq<char>) -> Seq<Option<Seq<char>>>;

/// The byte offsets at which the leftmost match of the pattern in `text`
/// starts and ends, as `Regex::find` reports them.
pub uninterp spec fn regex_find(pattern: Seq<char>, text: Seq<char>) -> Option<(usize, usize)>;

/// `text` with the leftmost match of the pattern replaced by the expansion of
/// `template`, as `Regex::replace` returns it.
pub uninterp spec fn regex_replace(
    pattern: Seq<char>,
    text: Seq<char>,
    template: Seq<char>,
) -> Seq<char>;

/// Calls `Regex::new` and says whether the pattern compiled. Compiling depends
/// on the pattern alone: the size limits are the crate's fixed defaults.
#[verifier::external_body]
pub(crate) fn compiles(pattern: &str) -> (ok: bool)
    ensures
        ok == regex_compiles(pattern@),
{
    Regex::new(pattern).is_ok()
}

/// Calls `Regex::capture_names` on the compiled pattern and copies each name
/// into an owned string. A pattern that does not compile has no groups to
/// report and is left out.
#[verifier::external_body]
pub(crate) fn capture_names(pattern: &str) -> (names: Vec<Option<String>>)
    requires
        regex_compiles(pattern@),
    ensures
        names.deep_view() == regex_capture_names(pattern@),
{
    match Regex::new(pattern) {
        Ok(regex) => regex.capture_names().map(|name| name.map(String::from)).collect(),
        Err(_) => Vec::new(),
    }
}

/// Calls `Regex::find` on the compiled pattern and hands back the offsets of
/// the match, if there is one.
#[verifier::external_body]
pub(crate) fn find(pattern: &str, text: &str) -> (span: Option<(usize, usize)>)
    requires
        regex_compiles(pattern@),
    ensures
        span == regex_find(pattern@, text@),
{
    match Regex::new(pattern) {
        Ok(regex) => regex.find(text).map(|found| (found.start(), found.end())),
        Err(_) => None,
    }
}

/// Calls `Regex::replace` on the compiled pattern with `template` as the
/// replacement, and copies the result into an owned string.
#[verifier::external_body]
pub(crate) fn replace(pattern: &str, text: &str, template: &str) -> (replaced: String)
    requires
        regex_compiles(pattern@),
    ensures
        replaced@ == regex_replace(pattern@, text@, template@),
{
    match Regex::new(pattern) {
        Ok(regex) => regex.replace(text, template).into_owned(),
        Err(_) => String::new(),
    }
}

} // verus!
