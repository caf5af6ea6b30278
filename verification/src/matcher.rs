//! The boundary to the `regex` crate.
//!
//! Regular-expression matching is deterministic: what a pattern matches in a
//! haystack is a function of the two texts alone. The spec functions below
//! name those results, and the wrappers hand them to verified code.

use vstd::prelude::*;

verus! {

/// Whether `p` is a syntactically valid regular expression (whether
/// `regex::Regex::new` accepts it).
pub uninterp spec fn regex_valid(p: Seq<char>) -> bool;

/// The number of non-overlapping matches of `p` in `hay`, found left to
/// right (what `regex::Regex::captures_iter` yields).
pub uninterp spec fn match_count(p: Seq<char>, hay: Seq<char>) -> nat;

/// What the capture group named `name` captured in the `i`-th non-overlapping
/// match of `p` in `hay`: `None` when the group does not exist or did not
/// participate in that match (what `regex::Captures::name` returns there).
pub uninterp spec fn capture_at(p: Seq<char>, hay: Seq<char>, i: int, name: Seq<char>) -> Option<
    Seq<char>,
>;

/// The text of capture group 0 — the full matched substring — of the `i`-th
/// non-overlapping match of `p` in `hay`, or `None` in the defensive case
/// where that group cannot be materialized (what `regex::Captures::get(0)`
/// returns there).
pub uninterp spec fn whole_match_at(p: Seq<char>, hay: Seq<char>, i: int) -> Option<Seq<char>>;

/// The view of an optional owned string.
pub open spec fn opt_str_view(o: Option<String>) -> Option<Seq<char>> {
    match o {
        Some(s) => Some(s@),
        None => None,
    }
}

/// Relies on `regex::Regex::new`: it returns `Ok` exactly on syntactically
/// valid patterns, a function of the pattern text alone.
#[verifier::external_body]
pub(crate) fn compiles(p: &str) -> (r: bool)
    ensures
        r == regex_valid(p@),
{
    regex::Regex::new(p).is_ok()
}

/// Relies on `regex::Regex::captures_iter`: it yields the capture groups of
/// every non-overlapping match, left to right.
#[verifier::external_body]
pub(crate) fn count_matches(p: &str, hay: &str) -> (r: usize)
    requires
        regex_valid(p@),
    ensures
        r as nat == match_count(p@, hay@),
{
    regex::Regex::new(p).unwrap().captures_iter(hay).count()
}

/// Relies on `regex::Regex::captures_iter` and `regex::Captures::name`: the
/// `n`-th non-overlapping match, and what each requested named group captured
/// in it.
#[verifier::external_body]
pub(crate) fn captures_at(p: &str, hay: &str, n: usize, names: &Vec<String>) -> (r: Option<
    Vec<Option<String>>,
>)
    requires
        regex_valid(p@),
    ensures
        r is Some <==> (n as nat) < match_count(p@, hay@),
        r is Some ==> (r->0)@.len() == names@.len(),
        r is Some ==> forall|j: int|
            0 <= j < names@.len() ==> opt_str_view(
                #[trigger] (r->0)@[j],
            ) == capture_at(p@, hay@, n as int, names@[j]@),
{
    let caps = regex::Regex::new(p).unwrap().captures_iter(hay).nth(n)?;
    Some(names.iter().map(|nm| caps.name(nm.as_str()).map(|m| m.as_str().to_string())).collect())
}

/// Relies on `regex::Regex::captures_iter` and `regex::Captures::get`: the
/// full matched substring (group 0) of the `n`-th non-overlapping match.
#[verifier::external_body]
pub(crate) fn whole_match(p: &str, hay: &str, n: usize) -> (r: Option<Option<String>>)
    requires
        regex_valid(p@),
    ensures
        r is Some <==> (n as nat) < match_count(p@, hay@),
        r is Some ==> opt_str_view(r->0) == whole_match_at(p@, hay@, n as int),
{
    let caps = regex::Regex::new(p).unwrap().captures_iter(hay).nth(n)?;
    Some(caps.get(0).map(|m| m.as_str().to_string()))
}

} // verus!
