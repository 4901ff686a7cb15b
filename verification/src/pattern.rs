//! Regular expressions, through the `regex` crate.
//!
//! Matching is the `regex` crate's work: what a pattern captures on a text is
//! named here (`regex_captures`, `regex_captures_all`) and taken as given.
use vstd::prelude::*;

use crate::text::{find_byte, lemma_occurrence_found, occurs_at};

verus! {

#[verifier::external_type_specification]
#[verifier::external_body]
pub struct ExRegex(regex::Regex);

/// Whether `regex::Regex::new` accepts the pattern.
pub uninterp spec fn regex_compiles(pattern: Seq<char>) -> bool;

/// The capture groups of the leftmost-first match of `pattern` in `hay`, as
/// `regex::Regex::captures` reports them: `None` when nothing matches, else
/// the text of each group (group 0 is the whole match), `None` for a group
/// that did not take part in the match.
pub uninterp spec fn regex_captures(pattern: Seq<char>, hay: Seq<char>) -> Option<
    Seq<Option<Seq<char>>>,
>;

/// The capture groups of each successive non-overlapping match of `pattern`
/// in `hay`, as `regex::Regex::captures_iter` reports them.
pub uninterp spec fn regex_captures_all(pattern: Seq<char>, hay: Seq<char>) -> Seq<
    Seq<Option<Seq<char>>>,
>;

/// Whether the text of every group that took part in a match is a piece of
/// `hay`.
pub open spec fn groups_within(groups: Seq<Option<Seq<char>>>, hay: Seq<char>) -> bool {
    forall|i: int|
        0 <= i < groups.len() && (#[trigger] groups[i]) is Some ==> exists|a: int| occurs_at(hay, groups[i]->0, a)
}

/// The text of a group of a match in `hay` is found in `hay` (an absent
/// group gives the empty text, found at once).
pub proof fn lemma_group_found(groups: Seq<Option<Seq<char>>>, hay: Seq<char>, i: int)
    requires
        groups_within(groups, hay),
    ensures
        find_byte(hay, group_text(groups, i)) is Some,
{
    if 0 <= i < groups.len() && groups[i] is Some {
        let a = choose|a: int| occurs_at(hay, groups[i]->0, a);
        lemma_occurrence_found(hay, groups[i]->0, a);
    } else {
        assert(hay.subrange(0, 0) =~= Seq::<char>::empty());
        assert(occurs_at(hay, group_text(groups, i), 0));
        lemma_occurrence_found(hay, group_text(groups, i), 0);
    }
}

/// A compiled regular expression together with the pattern it was built from.
pub struct CompiledRegex {
    re: regex::Regex,
    pattern: Ghost<Seq<char>>,
}

impl View for CompiledRegex {
    type V = Seq<char>;

    closed spec fn view(&self) -> Seq<char> {
        self.pattern@
    }
}

/// `regex::Regex::new`: compiles the pattern; an error, with the crate's
/// message, exactly when the crate refuses the pattern. The value returned
/// carries the pattern as its view. Nothing is said of the message's text.
#[verifier::external_body]
pub(crate) fn compile_regex(pattern: &str) -> (r: Result<CompiledRegex, String>)
    ensures
        r is Ok <==> regex_compiles(pattern@),
        r matches Ok(c) ==> c@ == pattern@,
{
    match regex::Regex::new(pattern) {
        Ok(re) => Ok(CompiledRegex { re, pattern: Ghost(pattern@) }),
        Err(e) => Err(e.to_string()),
    }
}

/// `regex::Regex::captures`: the capture groups of the first match in `hay`,
/// each group's text copied out. The result is `regex_captures` of the
/// pattern the regex was compiled from and `hay`; each group's text is a
/// piece of `hay` (`Match::as_str` slices the haystack).
#[verifier::external_body]
pub(crate) fn captures(re: &CompiledRegex, hay: &str) -> (r: Option<Vec<Option<String>>>)
    ensures
        r.deep_view() == regex_captures(re@, hay@),
        r.deep_view() matches Some(g) ==> groups_within(g, hay@),
{
    let caps = re.re.captures(hay)?;
    let mut out = Vec::new();
    for m in caps.iter() {
        out.push(match m {
            Some(m) => Some(m.as_str().to_string()),
            None => None,
        });
    }
    Some(out)
}

/// `regex::Regex::captures_iter`: the capture groups of every successive
/// match in `hay`, each group's text copied out. The result is
/// `regex_captures_all` of the pattern and `hay`.
#[verifier::external_body]
pub(crate) fn captures_all(re: &CompiledRegex, hay: &str) -> (r: Vec<Vec<Option<String>>>)
    ensures
        r.deep_view() == regex_captures_all(re@, hay@),
{
    let mut out = Vec::new();
    for caps in re.re.captures_iter(hay) {
        let mut groups = Vec::new();
        for m in caps.iter() {
            groups.push(match m {
                Some(m) => Some(m.as_str().to_string()),
                None => None,
            });
        }
        out.push(groups);
    }
    out
}

/// `regex::Regex::is_match`: whether the pattern matches somewhere in
/// `hay`, which is when `captures` finds a match.
#[verifier::external_body]
pub(crate) fn is_match(re: &CompiledRegex, hay: &str) -> (r: bool)
    ensures
        r == (regex_captures(re@, hay@) is Some),
{
    re.re.is_match(hay)
}

/// The text of capture group `i`, or `default` when the group is absent.
pub open spec fn group_or(groups: Seq<Option<Seq<char>>>, i: int, default: Seq<char>) -> Seq<char> {
    if 0 <= i < groups.len() && groups[i] is Some {
        groups[i]->0
    } else {
        default
    }
}

/// The text of capture group `i`, empty when the group is absent.
pub open spec fn group_text(groups: Seq<Option<Seq<char>>>, i: int) -> Seq<char> {
    group_or(groups, i, seq![])
}

/// The chars of capture group `i`, or those of `default` when it is absent.
pub fn group_or_exec(groups: &Vec<Option<String>>, i: usize, default: &str) -> (r: Vec<char>)
    ensures
        r@ == group_or(groups.deep_view(), i as int, default@),
{
    if i < groups.len() {
        match &groups[i] {
            Some(s) => {
                return crate::text::chars_of(s.as_str());
            },
            None => {},
        }
    }
    crate::text::chars_of(default)
}

/// The chars of capture group `i`, empty when it is absent.
pub fn group_text_exec(groups: &Vec<Option<String>>, i: usize) -> (r: Vec<char>)
    ensures
        r@ == group_text(groups.deep_view(), i as int),
{
    if i < groups.len() {
        match &groups[i] {
            Some(s) => {
                return crate::text::chars_of(s.as_str());
            },
            None => {},
        }
    }
    Vec::new()
}

} // verus!
