//! Lower-case canonicalization of identifiers.
//!
//! Table and column names are normalized to lower case before they are
//! stored, so that all later uniqueness checks and lookups are plain
//! equality on the stored form.

use vstd::prelude::*;

verus! {

/// The lower-case form of a character sequence, as `str::to_lowercase`
/// produces it. The mapping is left unspecified; the model only needs that
/// equal inputs canonicalize to equal outputs.
pub uninterp spec fn lower_of(s: Seq<char>) -> Seq<char>;

/// Relies on `str::to_lowercase`: the result is the lower-case equivalent of
/// the input and depends on the characters of the input alone.
#[verifier::external_body]
pub(crate) fn lowercase(s: &str) -> (r: String)
    ensures
        r@ == lower_of(s@),
{
    s.to_lowercase()
}

/// The ghost image of an optional string: its characters, if present.
pub open spec fn opt_str_view(o: Option<String>) -> Option<Seq<char>> {
    match o {
        Some(s) => Some(s@),
        None => None,
    }
}

/// The ghost images of a sequence of strings.
pub open spec fn str_seq_view(s: Seq<String>) -> Seq<Seq<char>> {
    s.map_values(|x: String| x@)
}

} // verus!
