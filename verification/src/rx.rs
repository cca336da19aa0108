//! Access to the `regex` crate, which the scrapers use to pick fields out of
//! HTML and JavaScript, and small verified helpers over what it returns.
use vstd::prelude::*;
use crate::text::owned;

verus! {

/// What `regex::Regex::new(pattern)` followed by `captures_iter(text)` yields:
/// one entry per match, leftmost-first and non-overlapping, each the list of
/// capture groups (group 0 is the whole match, `None` for a group that took no
/// part). Empty when `pattern` does not compile.
pub uninterp spec fn regex_captures(pattern: Seq<char>, text: Seq<char>) -> Seq<Seq<Option<Seq<char>>>>;

/// What `regex::Regex::new(pattern)` followed by `split(text)` yields: the
/// pieces of `text` between the matches, starting with the piece before the
/// first match. Empty when `pattern` does not compile.
pub uninterp spec fn regex_split(pattern: Seq<char>, text: Seq<char>) -> Seq<Seq<char>>;

/// Calls `regex::Regex::new` and `Regex::captures_iter`. The result is named
/// `regex_captures`; the crate's documentation adds that group 0 of every
/// match is present.
#[verifier::external_body]
pub(crate) fn captures_all(pattern: &str, text: &str) -> (r: Vec<Vec<Option<String>>>)
    ensures
        r.deep_view() == regex_captures(pattern@, text@),
        forall|i: int|
            0 <= i < r@.len() ==> (#[trigger] r@[i])@.len() > 0 && r@[i]@[0] is Some,
{
    match regex::Regex::new(pattern) {
        Ok(re) => re.captures_iter(text).map(
            |c| c.iter().map(|m| m.map(|m| m.as_str().to_string())).collect(),
        ).collect(),
        Err(_) => Vec::new(),
    }
}

/// Calls `regex::Regex::new` and `Regex::split`; the result is named `regex_split`.
#[verifier::external_body]
pub(crate) fn split_all(pattern: &str, text: &str) -> (r: Vec<String>)
    ensures
        r.deep_view() == regex_split(pattern@, text@),
{
    match regex::Regex::new(pattern) {
        Ok(re) => re.split(text).map(|p| p.to_string()).collect(),
        Err(_) => Vec::new(),
    }
}

/// Characters that `regex::escape` prefixes with a backslash.
pub open spec fn is_meta_character(c: char) -> bool {
    c == '\\' || c == '.' || c == '+' || c == '*' || c == '?' || c == '(' || c == ')' || c
        == '|' || c == '[' || c == ']' || c == '{' || c == '}' || c == '^' || c == '$' || c
        == '#' || c == '&' || c == '-' || c == '~'
}

/// `s` with every meta character escaped by a backslash.
pub open spec fn regex_escape(s: Seq<char>) -> Seq<char>
    decreases s.len(),
{
    if s.len() == 0 {
        Seq::empty()
    } else {
        let c = s.last();
        let rest = regex_escape(s.drop_last());
        if is_meta_character(c) {
            rest.push('\\').push(c)
        } else {
            rest.push(c)
        }
    }
}

/// Calls `regex::escape`: every meta character gets a backslash before it.
#[verifier::external_body]
pub(crate) fn escape(s: &str) -> (r: String)
    ensures
        r@ == regex_escape(s@),
{
    regex::escape(s)
}

/// Group `g` of the first match, when there is a first match and the group took part.
pub open spec fn first_group(caps: Seq<Seq<Option<Seq<char>>>>, g: int) -> Option<Seq<char>> {
    if caps.len() > 0 && 0 <= g < caps[0].len() {
        caps[0][g]
    } else {
        None
    }
}

/// Group `g` of match `i`, when that group took part.
pub open spec fn group_of(caps: Seq<Seq<Option<Seq<char>>>>, i: int, g: int) -> Option<Seq<char>> {
    if 0 <= i < caps.len() && 0 <= g < caps[i].len() {
        caps[i][g]
    } else {
        None
    }
}

/// Group `g` of match `i` of a capture list.
pub fn get_group(caps: &Vec<Vec<Option<String>>>, i: usize, g: usize) -> (r: Option<String>)
    ensures
        r.deep_view() == group_of(caps.deep_view(), i as int, g as int),
{
    if i < caps.len() && g < caps[i].len() {
        match &caps[i][g] {
            Some(s) => {
                let out = owned(s.as_str());
                proof {
                    assert(caps.deep_view()[i as int] == caps@[i as int].deep_view());
                }
                Some(out)
            },
            None => {
                proof {
                    assert(caps.deep_view()[i as int] == caps@[i as int].deep_view());
                }
                None
            },
        }
    } else {
        None
    }
}

/// Group `g` of the first match of `pattern` in `text`.
pub fn first_capture(pattern: &str, text: &str, g: usize) -> (r: Option<String>)
    ensures
        r.deep_view() == first_group(regex_captures(pattern@, text@), g as int),
{
    let caps = captures_all(pattern, text);
    get_group(&caps, 0, g)
}

} // verus!
