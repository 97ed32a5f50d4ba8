//! Case folding for generated names, done by the `convert_case` crate.

use vstd::prelude::*;

use convert_case::{Case, Casing};

verus! {

/// The lower-snake form of a string, as `convert_case` computes it. The
/// conversion depends on the characters of the input alone.
pub uninterp spec fn snake_of(s: Seq<char>) -> Seq<char>;

/// Relies on `convert_case::Casing::to_case` with `Case::Snake`: a pure
/// conversion whose result depends on the characters of the input alone.
#[verifier::external_body]
pub(crate) fn to_snake(s: &str) -> (r: String)
    ensures
        r@ == snake_of(s@),
{
    s.to_case(Case::Snake)
}

} // verus!
