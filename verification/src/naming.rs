//! Canonical field names. The splitting of a vendor name into words is left
//! to the `convert_case` crate.

use convert_case::{Case, Casing};
use vstd::prelude::*;

verus! {

/// The snake-case form of `name`, as `convert_case` gives it.
pub uninterp spec fn snake_case(name: Seq<char>) -> Seq<char>;

/// `Casing::to_case(Case::Snake)`. Not proved: the result is known by its
/// name only.
#[verifier::external_body]
pub(crate) fn to_snake(name: &str) -> (r: String)
    ensures
        r@ == snake_case(name@),
{
    name.to_case(Case::Snake)
}

} // verus!
