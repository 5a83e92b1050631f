//! Regular expressions, through the `regex` crate.

use vstd::prelude::*;
use crate::model::opt_text;

verus! {

#[verifier::external_type_specification]
#[verifier::external_body]
pub struct ExRegex(regex::Regex);

/// A compiled regular expression and the text it was compiled from.
pub struct Pattern {
    source: String,
    re: regex::Regex,
}

impl Pattern {
    /// The text the expression was compiled from.
    pub closed spec fn source(&self) -> Seq<char> {
        self.source@
    }
}

/// The capture groups (group 0 is the whole match) of the leftmost-first
/// match of `pattern` in `text`, as `regex::Regex::captures` gives them.
pub uninterp spec fn regex_first(pattern: Seq<char>, text: Seq<char>) -> Option<
    Seq<Option<Seq<char>>>,
>;

/// Whether `regex::Regex::new` compiles `pattern`.
pub uninterp spec fn regex_compiles(pattern: Seq<char>) -> bool;

/// Each successive non-overlapping match of `pattern` in `text`, as
/// `regex::Regex::captures_iter` gives them: the character positions where
/// the match starts and ends, and its capture groups.
pub uninterp spec fn regex_matches(pattern: Seq<char>, text: Seq<char>) -> Seq<
    (int, int, Seq<Option<Seq<char>>>),
>;

/// The views of the groups of one match.
pub open spec fn group_views(v: Seq<Option<String>>) -> Seq<Option<Seq<char>>> {
    v.map_values(|g: Option<String>| opt_text(g))
}

/// The views of the groups of a match, if there is one.
pub open spec fn opt_groups(r: Option<Vec<Option<String>>>) -> Option<Seq<Option<Seq<char>>>> {
    match r {
        Some(v) => Some(group_views(v@)),
        None => None,
    }
}

/// The views of matches with their positions.
pub open spec fn match_views(v: Seq<(usize, usize, Vec<Option<String>>)>) -> Seq<
    (int, int, Seq<Option<Seq<char>>>),
> {
    v.map_values(|m: (usize, usize, Vec<Option<String>>)| (m.0 as int, m.1 as int, group_views(m.2@)))
}

/// Matches lie inside a text of `n` characters, in order, without overlap.
pub open spec fn matches_in_order(v: Seq<(usize, usize, Vec<Option<String>>)>, n: int) -> bool {
    &&& forall|i: int| 0 <= i < v.len() ==> (#[trigger] v[i]).0 <= v[i].1 <= n
    &&& forall|i: int, j: int| 0 <= i < j < v.len() ==> (#[trigger] v[i]).1 <= (#[trigger] v[j]).0
}

/// Relies on `regex::Regex::new`: compiles `source`, or fails on an invalid
/// pattern; which of the two depends on the pattern alone.
#[verifier::external_body]
pub(crate) fn compile(source: &str) -> (r: Option<Pattern>)
    ensures
        r is Some == regex_compiles(source@),
        r matches Some(p) ==> p.source() == source@,
{
    regex::Regex::new(source).ok().map(|re| Pattern { source: source.to_string(), re })
}

/// Relies on `regex::Regex::captures`: the groups of the leftmost-first
/// match, which depend on the pattern and the text alone.
#[verifier::external_body]
pub(crate) fn captures(p: &Pattern, text: &str) -> (r: Option<Vec<Option<String>>>)
    ensures
        opt_groups(r) == regex_first(p.source(), text@),
{
    p.re.captures(text).map(|c| c.iter().map(|m| m.map(|m| m.as_str().to_string())).collect())
}

/// Relies on `regex::Regex::captures_iter`: the successive non-overlapping
/// matches, in order, which depend on the pattern and the text alone; their
/// byte offsets are given as character positions.
#[verifier::external_body]
pub(crate) fn matches_all(p: &Pattern, text: &str) -> (r: Vec<(usize, usize, Vec<Option<String>>)>)
    ensures
        match_views(r@) == regex_matches(p.source(), text@),
        matches_in_order(r@, text@.len() as int),
{
    p.re.captures_iter(text).map(|c| {
        let m = c.get_match();
        let groups = c.iter().map(|g| g.map(|g| g.as_str().to_string())).collect();
        (text[..m.start()].chars().count(), text[..m.end()].chars().count(), groups)
    }).collect()
}

/// Group `i` of a match's groups, if it took part.
pub open spec fn group(gs: Seq<Option<Seq<char>>>, i: int) -> Option<Seq<char>> {
    if 0 <= i < gs.len() {
        gs[i]
    } else {
        None
    }
}

/// Group `i` of `v`, if it took part.
pub fn group_at(v: &Vec<Option<String>>, i: usize) -> (r: Option<String>)
    ensures
        opt_text(r) == group(group_views(v@), i as int),
{
    if i < v.len() {
        match &v[i] {
            Some(s) => Some(s.clone()),
            None => None,
        }
    } else {
        None
    }
}

} // verus!
