//! Pattern matching through `regex_lite`, the engine that decides which
//! lines are config items, dividers, decorators and so on.
//!
//! The patterns are interpreted by `regex_lite`; what a search finds is named
//! here (`regex_compiles`, `regex_first_captures`, `regex_all_captures`) and
//! not restated. The trusted wrappers below claim only that the values they
//! hand back are those named results, plus the placement facts that the crate
//! documents for every match (offsets are ordered and lie inside the haystack,
//! and a group's text is exactly as long as its span; group 0 is always present).
use vstd::prelude::*;
use crate::text::{byte_len, string_of};

verus! {

/// One capture group: byte offsets into the haystack and the matched text.
pub struct Group {
    pub start: usize,
    pub end: usize,
    pub text: String,
}

/// A capture group as plain values: (start byte, end byte, text).
pub type GroupView = (int, int, Seq<char>);

pub open spec fn group_view(g: Group) -> GroupView {
    (g.start as int, g.end as int, g.text@)
}

pub open spec fn groups_view(c: Seq<Option<Group>>) -> Seq<Option<GroupView>> {
    c.map_values(
        |o: Option<Group>|
            match o {
                Some(g) => Some(group_view(g)),
                None => None,
            },
    )
}

pub open spec fn matches_view(m: Seq<Vec<Option<Group>>>) -> Seq<Seq<Option<GroupView>>> {
    m.map_values(|c: Vec<Option<Group>>| groups_view(c@))
}

/// `Regex::new(pattern)` succeeds.
pub uninterp spec fn regex_compiles(pattern: Seq<char>) -> bool;

/// The capture groups of the leftmost-first match of `pattern` in `haystack`
/// (`Regex::captures`), or `None` when there is no match.
pub uninterp spec fn regex_first_captures(pattern: Seq<char>, haystack: Seq<char>) -> Option<
    Seq<Option<GroupView>>,
>;

/// The capture groups of each successive non-overlapping match (`Regex::captures_iter`).
pub uninterp spec fn regex_all_captures(pattern: Seq<char>, haystack: Seq<char>) -> Seq<
    Seq<Option<GroupView>>,
>;

/// What `regex_lite` documents of every `Captures` value: group 0 (the whole
/// match) is present, and each present group's offsets are ordered, within
/// the haystack, and as far apart as its text is long in bytes.
pub open spec fn well_placed(c: Seq<Option<GroupView>>, haystack: Seq<char>) -> bool {
    &&& c.len() >= 1
    &&& c[0] is Some
    &&& forall|i: int|
        0 <= i < c.len() ==> match #[trigger] c[i] {
            Some(g) => 0 <= g.0 <= g.1 <= byte_len(haystack) && byte_len(g.2) == g.1 - g.0,
            None => true,
        }
}

/// `pattern` compiles and matches somewhere in `haystack`.
pub open spec fn pattern_found(pattern: Seq<char>, haystack: Seq<char>) -> bool {
    regex_compiles(pattern) && regex_first_captures(pattern, haystack) is Some
}

/// The captures of the first match, when the pattern compiles and matches.
pub open spec fn first_match(pattern: Seq<char>, haystack: Seq<char>) -> Option<
    Seq<Option<GroupView>>,
> {
    if regex_compiles(pattern) {
        regex_first_captures(pattern, haystack)
    } else {
        None
    }
}

/// All matches, none when the pattern does not compile.
pub open spec fn all_matches(pattern: Seq<char>, haystack: Seq<char>) -> Seq<
    Seq<Option<GroupView>>,
> {
    if regex_compiles(pattern) {
        regex_all_captures(pattern, haystack)
    } else {
        Seq::empty()
    }
}

/// Start byte of the whole match (group 0).
pub open spec fn match_start(c: Seq<Option<GroupView>>) -> int {
    if c.len() > 0 {
        match c[0] {
            Some(g) => g.0,
            None => 0,
        }
    } else {
        0
    }
}

/// End byte of the whole match (group 0).
pub open spec fn match_end(c: Seq<Option<GroupView>>) -> int {
    if c.len() > 0 {
        match c[0] {
            Some(g) => g.1,
            None => 0,
        }
    } else {
        0
    }
}

/// Text of group `i`, empty when the group is absent.
pub open spec fn group_text(c: Seq<Option<GroupView>>, i: int) -> Seq<char> {
    if 0 <= i < c.len() {
        match c[i] {
            Some(g) => g.2,
            None => Seq::empty(),
        }
    } else {
        Seq::empty()
    }
}

/// `Regex::new(pattern)` followed, when it compiles, by `Regex::captures(haystack)`
/// with every group's offsets and text copied out. Claims: the outer `Option`
/// is `Some` exactly when the pattern compiles, and then the result is the named
/// first match, well placed in the haystack.
#[verifier::external_body]
pub(crate) fn captures_first(pattern: &str, haystack: &str) -> (r: Option<Option<Vec<Option<Group>>>>)
    ensures
        r is Some <==> regex_compiles(pattern@),
        r matches Some(found) ==> (found is Some <==> regex_first_captures(
            pattern@,
            haystack@,
        ) is Some),
        r matches Some(Some(c)) ==> regex_first_captures(pattern@, haystack@) == Some(
            groups_view(c@),
        ) && well_placed(groups_view(c@), haystack@),
{
    match regex_lite::Regex::new(pattern) {
        Ok(re) => Some(re.captures(haystack).map(|caps| caps.iter().map(|m| m.map(|m| Group {
            start: m.start(), end: m.end(), text: m.as_str().to_string() })).collect())),
        Err(_) => None,
    }
}

/// `Regex::new(pattern)` followed, when it compiles, by `Regex::captures_iter(haystack)`
/// collected in order. Claims: `Some` exactly when the pattern compiles, and then
/// the named sequence of matches, each well placed in the haystack.
#[verifier::external_body]
pub(crate) fn captures_all(pattern: &str, haystack: &str) -> (r: Option<Vec<Vec<Option<Group>>>>)
    ensures
        r is Some <==> regex_compiles(pattern@),
        r matches Some(m) ==> regex_all_captures(pattern@, haystack@) == matches_view(m@) && (
        forall|k: int| 0 <= k < m@.len() ==> well_placed(#[trigger] groups_view(m@[k]@), haystack@)),
{
    match regex_lite::Regex::new(pattern) {
        Ok(re) => Some(re.captures_iter(haystack).map(|caps| caps.iter().map(|m| m.map(|m| Group {
            start: m.start(), end: m.end(), text: m.as_str().to_string() })).collect()).collect()),
        Err(_) => None,
    }
}

/// Whether `pattern` compiles and matches `haystack`.
pub fn is_found(pattern: &str, haystack: &str) -> (r: bool)
    ensures
        r == pattern_found(pattern@, haystack@),
{
    match captures_first(pattern, haystack) {
        Some(Some(_)) => true,
        _ => false,
    }
}

/// The first match's groups, when the pattern compiles and matches.
pub fn first(pattern: &str, haystack: &str) -> (r: Option<Vec<Option<Group>>>)
    ensures
        r is Some <==> first_match(pattern@, haystack@) is Some,
        r matches Some(c) ==> first_match(pattern@, haystack@) == Some(groups_view(c@))
            && well_placed(groups_view(c@), haystack@),
{
    match captures_first(pattern, haystack) {
        Some(found) => found,
        None => None,
    }
}

/// Every match's groups; empty when the pattern does not compile.
pub fn all(pattern: &str, haystack: &str) -> (r: Vec<Vec<Option<Group>>>)
    ensures
        matches_view(r@) == all_matches(pattern@, haystack@),
        forall|k: int| 0 <= k < r@.len() ==> well_placed(#[trigger] groups_view(r@[k]@), haystack@),
{
    match captures_all(pattern, haystack) {
        Some(m) => m,
        None => {
            let v: Vec<Vec<Option<Group>>> = Vec::new();
            assert(matches_view(v@) =~= Seq::<Seq<Option<GroupView>>>::empty());
            v
        },
    }
}

/// The text of group `i`, empty when absent.
pub fn group_text_of(c: &Vec<Option<Group>>, i: usize) -> (r: String)
    ensures
        r@ == group_text(groups_view(c@), i as int),
{
    if i < c.len() {
        match &c[i] {
            Some(g) => string_of(g.text.as_str()),
            None => String::new(),
        }
    } else {
        String::new()
    }
}

} // verus!
