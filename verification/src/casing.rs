//! Unicode case mapping, as std performs it.
use vstd::prelude::*;

verus! {

/// What `str::to_uppercase` returns for a string with these characters.
pub uninterp spec fn str_to_uppercase(s: Seq<char>) -> Seq<char>;

/// What `str::to_lowercase` returns for a string with these characters.
pub uninterp spec fn str_to_lowercase(s: Seq<char>) -> Seq<char>;

/// The characters that `char::to_uppercase` yields for `c`.
pub uninterp spec fn char_to_uppercase(c: char) -> Seq<char>;

/// Calls `str::to_uppercase`; its result, a function of the characters of `s` alone
/// (the Unicode uppercase mapping), is named and not spelt out.
#[verifier::external_body]
pub(crate) fn to_uppercase(s: &str) -> (res: String)
    ensures
        res@ == str_to_uppercase(s@),
{
    s.to_uppercase()
}

/// Calls `str::to_lowercase`; its result, a function of the characters of `s` alone
/// (the Unicode lowercase mapping), is named and not spelt out.
#[verifier::external_body]
pub(crate) fn to_lowercase(s: &str) -> (res: String)
    ensures
        res@ == str_to_lowercase(s@),
{
    s.to_lowercase()
}

/// Calls `char::to_uppercase` and gathers the characters it yields into a string;
/// which characters they are (the Unicode uppercase mapping of `c`) is named and not spelt out.
#[verifier::external_body]
pub(crate) fn char_uppercase(c: char) -> (res: String)
    ensures
        res@ == char_to_uppercase(c),
{
    c.to_uppercase().collect::<String>()
}

} // verus!
