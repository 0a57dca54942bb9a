//! Name normalization: display names are trimmed, search names are trimmed
//! and case-folded, so that two names differing only by case or surrounding
//! whitespace collide in the registry's name index.

use vstd::prelude::*;

verus! {

/// What `str::trim` returns for a given string: the string without its
/// leading and trailing whitespace.
pub uninterp spec fn trim_of(s: Seq<char>) -> Seq<char>;

/// What `str::to_lowercase` returns for a given string: its Unicode
/// lowercase equivalent. The result depends on the characters alone.
pub uninterp spec fn lower_of(s: Seq<char>) -> Seq<char>;

/// The search-normalized form of a name: trimmed, then case-folded.
/// The registry's name index is keyed by this value.
pub open spec fn search_key(s: Seq<char>) -> Seq<char> {
    lower_of(trim_of(s))
}

/// Relies on `str::trim`: returns the string slice without leading and
/// trailing whitespace; the result depends on the characters alone.
#[verifier::external_body]
pub fn sanitize(str: &str) -> (r: &str)
    ensures
        r@ == trim_of(str@),
{
    str.trim()
}

/// Relies on `str::to_lowercase`: returns the lowercase equivalent of the
/// string; the result depends on the characters alone.
#[verifier::external_body]
fn lowercase(s: &str) -> (r: String)
    ensures
        r@ == lower_of(s@),
{
    s.to_lowercase()
}

/// Normalizes a name for lookup in the registry's name index: trims it,
/// then case-folds it.
pub fn sanitize_for_search(str: &str) -> (r: String)
    ensures
        r@ == search_key(str@),
{
    lowercase(sanitize(str))
}

} // verus!
