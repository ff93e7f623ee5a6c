//! Regular-expression matching, done by the `regex` crate.
//!
//! Nothing here is proved about what a pattern matches. Each result of the
//! engine has a name, an uninterpreted function of the pattern and the
//! searched text, and the calls into the engine are believed to return what
//! their name stands for. The rest of the library is verified against these
//! names.

use crate::text::chars_of;
use crate::text::parse_u32;
use crate::text::parsed_u32;
use regex::NoExpand;
use regex::Regex;
use vstd::prelude::*;

verus! {

/// Whether `Regex::new` accepts the pattern.
pub uninterp spec fn regex_compiles(pattern: Seq<char>) -> bool;

/// What `Regex::is_match` answers for a compiled pattern.
pub uninterp spec fn regex_is_match(pattern: Seq<char>, text: Seq<char>) -> bool;

/// What `Regex::captures` finds for a compiled pattern: the groups of the
/// leftmost match, group 0 being the whole match, or `None` without a match.
pub uninterp spec fn regex_captures(pattern: Seq<char>, text: Seq<char>) -> Option<
    Seq<Option<Seq<char>>>,
>;

/// What `Regex::captures_iter` yields for a compiled pattern: the groups of
/// each successive match.
pub uninterp spec fn regex_captures_iter(pattern: Seq<char>, text: Seq<char>) -> Seq<
    Seq<Option<Seq<char>>>,
>;

/// What `Regex::split` yields for a compiled pattern: the stretches of text
/// between successive matches.
pub uninterp spec fn regex_split(pattern: Seq<char>, text: Seq<char>) -> Seq<Seq<char>>;

/// What `Regex::replace_all` returns for a compiled pattern and a replacement
/// template in which `$1` and the like are expanded.
pub uninterp spec fn regex_replace_all(
    pattern: Seq<char>,
    text: Seq<char>,
    template: Seq<char>,
) -> Seq<char>;

/// What `Regex::replace` returns for a compiled pattern when the first match
/// is replaced by `literal`, taken verbatim.
pub uninterp spec fn regex_replace_first(
    pattern: Seq<char>,
    text: Seq<char>,
    literal: Seq<char>,
) -> Seq<char>;

/// The captures of a pattern that may not compile: none in that case.
pub open spec fn captures_of(pattern: Seq<char>, text: Seq<char>) -> Option<
    Seq<Option<Seq<char>>>,
> {
    if regex_compiles(pattern) {
        regex_captures(pattern, text)
    } else {
        None
    }
}

/// The text of group 0 of each entry; empty for an entry without one.
pub open spec fn whole_matches(found: Seq<Seq<Option<Seq<char>>>>) -> Seq<Seq<char>> {
    Seq::new(found.len(), |i: int| group_text(found[i], 0))
}

/// The text of group `i`, or the empty text where the group is absent.
pub open spec fn group_text(groups: Seq<Option<Seq<char>>>, i: int) -> Seq<char> {
    if 0 <= i < groups.len() && groups[i] is Some {
        groups[i]->0
    } else {
        Seq::empty()
    }
}

/// The number in group 1 of a match, where that group took part and parses.
pub open spec fn group_number(groups: Seq<Option<Seq<char>>>) -> Option<u32> {
    if groups.len() > 1 && groups[1] is Some {
        parsed_u32(groups[1]->0)
    } else {
        None
    }
}

/// The first `n` gaps, each followed by its fill.
pub open spec fn weave(gaps: Seq<Seq<char>>, fills: Seq<Seq<char>>, n: int) -> Seq<char>
    decreases n,
{
    if n <= 0 {
        Seq::empty()
    } else {
        weave(gaps, fills, n - 1) + gaps[n - 1] + fills[n - 1]
    }
}

/// Gaps and fills in turn, from the first gap to the last: one gap more than
/// there are fills.
pub open spec fn interleave(gaps: Seq<Seq<char>>, fills: Seq<Seq<char>>) -> Seq<char> {
    weave(gaps, fills, fills.len() as int) + gaps[fills.len() as int]
}

/// Calls `Regex::is_match` on each of the texts, with one compiled pattern.
/// `None` stands for a pattern that `Regex::new` rejects.
#[verifier::external_body]
pub(crate) fn is_match_each(pattern: &str, texts: &Vec<String>) -> (r: Option<Vec<bool>>)
    ensures
        r is Some == regex_compiles(pattern@),
        r is Some ==> r->0@.len() == texts@.len(),
        r is Some ==> forall|i: int|
            0 <= i < texts@.len() ==> #[trigger] r->0@[i] == regex_is_match(pattern@, texts@[i]@),
{
    let re = Regex::new(pattern).ok()?;
    Some(texts.iter().map(|t| re.is_match(t)).collect())
}

/// Calls `Regex::captures` on each of the texts, with one compiled pattern,
/// and copies out the text of each group. `None` stands for a pattern that
/// does not compile; for a text, `None` stands for no match. The engine
/// documents that a match has at least group 0 and that group 0 took part in
/// it.
#[verifier::external_body]
pub(crate) fn captures_each(pattern: &str, texts: &Vec<String>) -> (r: Option<
    Vec<Option<Vec<Option<String>>>>,
>)
    ensures
        r is Some == regex_compiles(pattern@),
        r is Some ==> r->0@.len() == texts@.len(),
        r is Some ==> forall|i: int|
            0 <= i < texts@.len() ==> (#[trigger] r->0@[i]).deep_view() == regex_captures(
                pattern@,
                texts@[i]@,
            ),
        r is Some ==> forall|i: int|
            0 <= i < texts@.len() && (#[trigger] r->0@[i]) is Some ==> r->0@[i]->0@.len() >= 1
                && r->0@[i]->0@[0] is Some,
{
    let re = Regex::new(pattern).ok()?;
    Some(
        texts.iter().map(
            |t| re.captures(t).map(|c| c.iter().map(|g| g.map(|m| m.as_str().to_string())).collect()),
        ).collect(),
    )
}

/// Calls `Regex::captures_iter` on the compiled pattern and copies out the
/// text of each group of each match. `None` stands for a pattern that does
/// not compile. Every match has at least group 0, which took part in it.
#[verifier::external_body]
pub(crate) fn captures_iter(pattern: &str, text: &str) -> (r: Option<Vec<Vec<Option<String>>>>)
    ensures
        r is Some == regex_compiles(pattern@),
        r is Some ==> r->0.deep_view() == regex_captures_iter(pattern@, text@),
        r is Some ==> forall|i: int|
            0 <= i < r->0@.len() ==> (#[trigger] r->0@[i])@.len() >= 1 && r->0@[i]@[0] is Some,
{
    let re = Regex::new(pattern).ok()?;
    Some(
        re.captures_iter(text).map(
            |caps| caps.iter().map(|g| g.map(|m| m.as_str().to_string())).collect(),
        ).collect(),
    )
}

/// Calls `Regex::split` on the compiled pattern and copies out the pieces.
/// `None` stands for a pattern that does not compile. The pieces are the text
/// before the first match, between each two successive matches and after the
/// last, so there is one more of them than `captures_iter` finds matches, and
/// pieces and matches in turn make up the text.
#[verifier::external_body]
pub(crate) fn split(pattern: &str, text: &str) -> (r: Option<Vec<String>>)
    ensures
        r is Some == regex_compiles(pattern@),
        r is Some ==> r->0.deep_view() == regex_split(pattern@, text@),
        r is Some ==> r->0@.len() == regex_captures_iter(pattern@, text@).len() + 1,
        r is Some ==> interleave(
            r->0.deep_view(),
            whole_matches(regex_captures_iter(pattern@, text@)),
        ) == text@,
{
    let re = Regex::new(pattern).ok()?;
    Some(re.split(text).map(|piece| piece.to_string()).collect())
}

/// Calls `Regex::replace_all` with a replacement template on each of the
/// texts, with one compiled pattern. `None` stands for a pattern that does not
/// compile.
#[verifier::external_body]
pub(crate) fn replace_all_each(pattern: &str, texts: &Vec<String>, template: &str) -> (r: Option<
    Vec<String>,
>)
    ensures
        r is Some == regex_compiles(pattern@),
        r is Some ==> r->0@.len() == texts@.len(),
        r is Some ==> forall|i: int|
            0 <= i < texts@.len() ==> (#[trigger] r->0@[i])@ == regex_replace_all(
                pattern@,
                texts@[i]@,
                template@,
            ),
{
    let re = Regex::new(pattern).ok()?;
    Some(texts.iter().map(|t| re.replace_all(t, template).into_owned()).collect())
}

/// Calls `Regex::replace` with a `NoExpand` replacement: the first match, if
/// there is one, gives way to `literal`. `None` stands for a pattern that does
/// not compile.
#[verifier::external_body]
pub(crate) fn replace_first(pattern: &str, text: &str, literal: &str) -> (r: Option<String>)
    ensures
        r is Some == regex_compiles(pattern@),
        r is Some ==> r->0@ == regex_replace_first(pattern@, text@, literal@),
{
    let re = Regex::new(pattern).ok()?;
    Some(re.replace(text, NoExpand(literal)).into_owned())
}

/// The number in group 1 of a match, where that group took part and parses.
pub fn number_of_group(groups: &Vec<Option<String>>) -> (r: Option<u32>)
    ensures
        r == group_number(groups.deep_view()),
{
    if groups.len() > 1 {
        assert(groups.deep_view()[1] == groups@[1].deep_view());
        match &groups[1] {
            Some(text) => {
                let digits = chars_of(text.as_str());
                parse_u32(digits.as_slice())
            },
            None => None,
        }
    } else {
        None
    }
}

/// Tells whether the pattern compiles.
pub fn compiles(pattern: &str) -> (r: bool)
    ensures
        r == regex_compiles(pattern@),
{
    let none: Vec<String> = Vec::new();
    is_match_each(pattern, &none).is_some()
}

/// Tells whether the pattern matches the text. `None` stands for a pattern
/// that does not compile.
pub fn is_match(pattern: &str, text: &str) -> (r: Option<bool>)
    ensures
        r is Some == regex_compiles(pattern@),
        r is Some ==> r->0 == regex_is_match(pattern@, text@),
{
    let mut one: Vec<String> = Vec::new();
    one.push(text.to_owned());
    match is_match_each(pattern, &one) {
        Some(answers) => Some(answers[0]),
        None => None,
    }
}

/// The groups of the leftmost match of the pattern in the text. `None`
/// stands for no match, and for a pattern that does not compile.
pub fn captures(pattern: &str, text: &str) -> (r: Option<Vec<Option<String>>>)
    ensures
        r.deep_view() == captures_of(pattern@, text@),
        r is Some ==> r->0@.len() >= 1 && r->0@[0] is Some,
{
    let mut one: Vec<String> = Vec::new();
    one.push(text.to_owned());
    match captures_each(pattern, &one) {
        Some(mut found) => {
            assert(found@[0].deep_view() == regex_captures(pattern@, text@));
            found.remove(0)
        },
        None => None,
    }
}

} // verus!
