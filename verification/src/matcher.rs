//! The fuzzy match engine: decides whether a stored clip name matches the
//! search text. The scoring itself is sniffer-rs's hybrid matcher (substring
//! containment, levenshtein, hamming and jaro-winkler, all case-insensitive);
//! this module pins down what the library relies on: the verdict is a
//! function of the two strings alone, and an empty search matches everything.

use vstd::prelude::*;

verus! {

/// The verdict of sniffer-rs's default matcher on a clip name and a search
/// text. Deterministic: the same two strings always give the same verdict.
pub uninterp spec fn sniffer_match(name: Seq<char>, search: Seq<char>) -> bool;

/// Relies on sniffer_rs's `Sniffer::new().matches`: a pure function of its
/// two string arguments. With the default configuration its containment
/// check lowercases both sides, strips spaces, and asks whether the search
/// is a substring of the name, so an empty search always matches.
#[verifier::external_body]
fn sniffer_matches(name: &str, search: &str) -> (r: bool)
    ensures
        r == sniffer_match(name@, search@),
        search@.len() == 0 ==> r,
{
    sniffer_rs::sniffer::Sniffer::new().matches(name, search)
}

/// Whether the clip named `name` is surfaced by the search text `search`:
/// an empty search keeps every clip, any other search is judged by the
/// fuzzy matcher.
pub fn fuzzy_matches(name: &str, search: &str) -> (r: bool)
    ensures
        r == sniffer_match(name@, search@),
        search@.len() == 0 ==> r,
{
    sniffer_matches(name, search)
}

} // verus!
