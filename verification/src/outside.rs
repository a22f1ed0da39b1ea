//! The calls that leave this crate: regular expressions and the processor count.
//! Verus takes the contracts in this file on trust.

use vstd::prelude::*;

verus! {

/// Whether the regular expression `pattern` matches anywhere in `text`, as
/// `regex::Regex::is_match` decides it; `false` for a pattern that does not compile.
pub uninterp spec fn regex_found(pattern: Seq<char>, text: Seq<char>) -> bool;

/// What the first capture group of the leftmost match of `pattern` in `text`
/// holds, as `regex::Regex::captures` finds it; `None` without a match, without
/// such a group, or for a pattern that does not compile.
pub uninterp spec fn regex_first_capture(pattern: Seq<char>, text: Seq<char>) -> Option<Seq<char>>;

/// What the first capture group holds in each of the successive matches of
/// `pattern` in `text`, in the order in which `regex::Regex::captures_iter`
/// yields them; empty for a pattern that does not compile.
pub uninterp spec fn regex_all_captures(pattern: Seq<char>, text: Seq<char>) -> Seq<Seq<char>>;

/// Compiles `pattern` with `regex::Regex::new` and asks `Regex::is_match` for
/// `text`. The contract only gives the answer its name: it depends on the two
/// texts alone.
#[verifier::external_body]
pub(crate) fn pattern_found(pattern: &str, text: &str) -> (found: bool)
    ensures
        found == regex_found(pattern@, text@),
{
    match regex::Regex::new(pattern) {
        Ok(re) => re.is_match(text),
        Err(_) => false,
    }
}

/// Compiles `pattern` with `regex::Regex::new`, asks `Regex::captures` for the
/// leftmost match in `text` and copies out group 1. The contract only gives the
/// result its name.
#[verifier::external_body]
pub(crate) fn first_capture(pattern: &str, text: &str) -> (group: Option<String>)
    ensures
        match group {
            Some(g) => regex_first_capture(pattern@, text@) == Some(g@),
            None => regex_first_capture(pattern@, text@) is None,
        },
{
    match regex::Regex::new(pattern) {
        Ok(re) => re.captures(text).and_then(|c| c.get(1)).map(|m| m.as_str().to_string()),
        Err(_) => None,
    }
}

/// Compiles `pattern` with `regex::Regex::new`, walks `Regex::captures_iter`
/// over `text` and copies out group 1 of every match, the empty string where the
/// group took no part. The contract only gives the result its name.
#[verifier::external_body]
pub(crate) fn all_captures(pattern: &str, text: &str) -> (groups: Vec<String>)
    ensures
        crate::text::strings(groups@) == regex_all_captures(pattern@, text@),
{
    match regex::Regex::new(pattern) {
        Ok(re) => re.captures_iter(text).map(
            |c| c.get(1).map_or(String::new(), |m| m.as_str().to_string()),
        ).collect(),
        Err(_) => Vec::new(),
    }
}

/// `num_cpus::get`: the number of logical processors this process may use. It
/// differs from machine to machine; its documentation promises at least one.
#[verifier::external_body]
pub(crate) fn available_cpus() -> (n: usize)
    ensures
        n >= 1,
{
    num_cpus::get()
}

} // verus!
