//! Regular expressions, as the `regex` crate compiles and runs them.
use vstd::prelude::*;
use crate::text::str_views;

verus! {

#[verifier::external_type_specification]
#[verifier::external_body]
pub struct ExRegex(regex::Regex);

/// Whether `regex::Regex::new` accepts the pattern.
pub uninterp spec fn regex_accepts(pattern: Seq<char>) -> bool;

/// The text of capture group 1 of the leftmost match of the pattern in the haystack, if
/// there is a match and the group takes part in it.
pub uninterp spec fn regex_first_group(pattern: Seq<char>, haystack: Seq<char>) -> Option<Seq<char>>;

/// For each successive non-overlapping match of the pattern in the haystack, the text of
/// each named group in `names`, if it takes part in the match.
pub uninterp spec fn regex_named_captures(pattern: Seq<char>, haystack: Seq<char>, names: Seq<Seq<char>>) -> Seq<Seq<Option<Seq<char>>>>;

/// A compiled regular expression, with the pattern it was compiled from.
pub struct Pattern {
    source: String,
    regex: regex::Regex,
}

impl View for Pattern {
    type V = Seq<char>;

    closed spec fn view(&self) -> Seq<char> {
        self.source@
    }
}

pub open spec fn option_view(o: Option<String>) -> Option<Seq<char>> {
    match o {
        Some(s) => Some(s@),
        None => None,
    }
}

pub open spec fn capture_views(c: Seq<Vec<Option<String>>>) -> Seq<Seq<Option<Seq<char>>>> {
    c.map_values(|row: Vec<Option<String>>| row@.map_values(|o: Option<String>| option_view(o)))
}

/// Calls `regex::Regex::new`. Whether it succeeds is a function of the pattern alone (its
/// syntax and the default size limit), named and not spelt out; the compiled expression is
/// kept with its pattern.
#[verifier::external_body]
pub(crate) fn compile(pattern: &str) -> (res: Option<Pattern>)
    ensures
        res is Some <==> regex_accepts(pattern@),
        res matches Some(p) ==> p@ == pattern@,
{
    match regex::Regex::new(pattern) {
        Ok(regex) => Some(Pattern { source: pattern.to_string(), regex }),
        Err(_) => None,
    }
}

/// Calls `regex::Regex::captures` and `regex::Captures::get(1)`: the text of group 1 of the
/// leftmost match, which is a function of the pattern and the haystack, named and not spelt
/// out.
#[verifier::external_body]
pub(crate) fn first_group(p: &Pattern, haystack: &str) -> (res: Option<String>)
    ensures
        option_view(res) == regex_first_group(p@, haystack@),
{
    p.regex.captures(haystack).and_then(|c| c.get(1)).map(|m| m.as_str().to_string())
}

/// Calls `regex::Regex::captures_iter` and, on each match, `regex::Captures::name` for each
/// of `names`: the texts of the named groups of the successive non-overlapping matches,
/// which are a function of the pattern, the haystack and the names, named and not spelt out.
#[verifier::external_body]
pub(crate) fn named_captures(p: &Pattern, haystack: &str, names: &Vec<&str>) -> (res: Vec<Vec<Option<String>>>)
    ensures
        capture_views(res@) == regex_named_captures(p@, haystack@, str_views(names@)),
        forall|i: int| 0 <= i < res@.len() ==> (#[trigger] res@[i])@.len() == names@.len(),
{
    p.regex
        .captures_iter(haystack)
        .map(|c| names.iter().map(|n| c.name(n).map(|m| m.as_str().to_string())).collect())
        .collect()
}

} // verus!
