//! Case conversions the string-parsing and accessor generators rely on.
//! Each conversion is a function of the input characters alone, so its
//! result carries a name the callers' contracts speak of.

use vstd::prelude::*;
use vstd::string::*;

verus! {

/// What lowercasing a string yields.
pub uninterp spec fn lower_of(s: Seq<char>) -> Seq<char>;

/// Relies on `str::to_lowercase`: the lowercase form of a string, a
/// function of its characters alone.
#[verifier::external_body]
pub(crate) fn lowercase(s: &str) -> (r: String)
    ensures
        r@ == lower_of(s@),
{
    s.to_lowercase()
}

/// What splitting an identifier into lowercased, space-separated words
/// yields.
pub uninterp spec fn lower_words_of(s: Seq<char>) -> Seq<char>;

/// Relies on convert_case's `Casing::to_case` with `Case::Lower`: the
/// identifier split into words, lowercased and space-separated, a function
/// of its characters alone.
#[verifier::external_body]
pub(crate) fn to_lower_words(s: &str) -> (r: String)
    ensures
        r@ == lower_words_of(s@),
{
    convert_case::Casing::to_case(&s, convert_case::Case::Lower)
}

/// What converting an identifier to snake case yields.
pub uninterp spec fn snake_case_of(s: Seq<char>) -> Seq<char>;

/// Relies on convert_case's `Casing::to_case` with `Case::Snake`: the
/// snake_case form of the identifier, a function of its characters alone.
#[verifier::external_body]
pub(crate) fn to_snake_case(s: &str) -> (r: String)
    ensures
        r@ == snake_case_of(s@),
{
    convert_case::Casing::to_case(&s, convert_case::Case::Snake)
}

} // verus!
