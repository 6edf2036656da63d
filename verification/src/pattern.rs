//! Regular-expression matching, as the `regex` crate does it.
//!
//! What a pattern matches in a text is not reasoned about here. Each result
//! gets a name, and the functions of this crate that build on a result say
//! exactly what they make of it.

use vstd::prelude::*;
use vstd::string::StringExecFns;
use crate::strings::texts_of;

verus! {

/// The parts of `text` that lie between the matches of `pattern`, in order:
/// what `Regex::split` yields. `None` where `Regex::new` rejects the pattern.
pub uninterp spec fn split_parts(pattern: Seq<char>, text: Seq<char>) -> Option<Seq<Seq<char>>>;

/// For each match of `pattern` in `text`, in order, the text of each capture
/// group, group 0 being the whole match: what `Regex::captures_iter` yields.
/// A group that took no part in a match is `None`. The whole is `None` where
/// `Regex::new` rejects the pattern.
pub uninterp spec fn match_groups(pattern: Seq<char>, text: Seq<char>) -> Option<
    Seq<Seq<Option<Seq<char>>>>,
>;

/// Whether `pattern` matches somewhere in `text`: what `Regex::is_match`
/// returns. `None` where `Regex::new` rejects the pattern.
pub uninterp spec fn has_match(pattern: Seq<char>, text: Seq<char>) -> Option<bool>;

/// What the groups of one match hold.
pub open spec fn groups_of(groups: Seq<Option<String>>) -> Seq<Option<Seq<char>>> {
    groups.map_values(
        |group: Option<String>|
            match group {
                Some(text) => Some(text@),
                None => None,
            },
    )
}

/// What the groups of a sequence of matches hold.
pub open spec fn all_groups_of(matches: Seq<Vec<Option<String>>>) -> Seq<Seq<Option<Seq<char>>>> {
    matches.map_values(|groups: Vec<Option<String>>| groups_of(groups@))
}

/// `Regex::new` and `Regex::split`: the parts of `text` between the matches
/// of `pattern`, or `None` for a pattern that does not compile.
#[verifier::external_body]
pub(crate) fn split_text(pattern: &str, text: &str) -> (parts: Option<Vec<String>>)
    ensures
        match parts {
            Some(found) => split_parts(pattern@, text@) == Some(texts_of(found@)),
            None => split_parts(pattern@, text@) is None,
        },
{
    match regex::Regex::new(pattern) {
        Ok(re) => Some(re.split(text).map(|part| part.to_string()).collect()),
        Err(_) => None,
    }
}

/// `Regex::new` and `Regex::captures_iter`: the capture groups of each match
/// of `pattern` in `text`, or `None` for a pattern that does not compile.
#[verifier::external_body]
pub(crate) fn capture_text(pattern: &str, text: &str) -> (groups: Option<Vec<Vec<Option<String>>>>)
    ensures
        match groups {
            Some(found) => match_groups(pattern@, text@) == Some(all_groups_of(found@)),
            None => match_groups(pattern@, text@) is None,
        },
{
    match regex::Regex::new(pattern) {
        Ok(re) => Some(
            re.captures_iter(text).map(
                |caps| caps.iter().map(|group| group.map(|m| m.as_str().to_string())).collect(),
            ).collect(),
        ),
        Err(_) => None,
    }
}

/// `Regex::new` and `Regex::is_match`: whether `pattern` matches somewhere
/// in `text`, or `None` for a pattern that does not compile.
#[verifier::external_body]
pub(crate) fn search_text(pattern: &str, text: &str) -> (found: Option<bool>)
    ensures
        found == has_match(pattern@, text@),
{
    match regex::Regex::new(pattern) {
        Ok(re) => Some(re.is_match(text)),
        Err(_) => None,
    }
}

/// The text at position `at` of `parts`, and nothing where there is none.
pub open spec fn part_at(parts: Seq<Seq<char>>, at: int) -> Seq<char> {
    if 0 <= at < parts.len() {
        parts[at]
    } else {
        Seq::empty()
    }
}

/// The first `count` gaps and fills, taken in turn: a gap, then a fill.
pub open spec fn woven(gaps: Seq<Seq<char>>, fills: Seq<Seq<char>>, count: int) -> Seq<char>
    decreases count,
{
    if count <= 0 {
        Seq::empty()
    } else {
        woven(gaps, fills, count - 1) + part_at(gaps, count - 1) + part_at(fills, count - 1)
    }
}

/// All of `gaps` and `fills`, taken in turn: a gap, then a fill, as long as
/// either is left.
pub open spec fn interleaved(gaps: Seq<Seq<char>>, fills: Seq<Seq<char>>) -> Seq<char> {
    let count = if gaps.len() >= fills.len() {
        gaps.len()
    } else {
        fills.len()
    };
    woven(gaps, fills, count as int)
}

/// Puts a text together again from the parts between its matches and from
/// what stands in for each match.
pub fn interleave(gaps: &Vec<String>, fills: &Vec<String>) -> (out: String)
    ensures
        out@ == interleaved(texts_of(gaps@), texts_of(fills@)),
{
    let count: usize = if gaps.len() >= fills.len() { gaps.len() } else { fills.len() };
    let mut out = String::new();
    let mut i: usize = 0;
    while i < count
        invariant
            i <= count,
            count == if gaps.len() >= fills.len() { gaps.len() } else { fills.len() },
            out@ == woven(texts_of(gaps@), texts_of(fills@), i as int),
        decreases count - i,
    {
        if i < gaps.len() {
            out.append(gaps[i].as_str());
        }
        if i < fills.len() {
            out.append(fills[i].as_str());
        }
        i += 1;
    }
    out
}

} // verus!
