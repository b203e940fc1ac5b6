//! Sets of operation ids.

use std::collections::HashSet;
use vstd::prelude::*;

verus! {

/// The ids in a set, as text.
pub open spec fn ids_of(set: HashSet<String>) -> Set<Seq<char>> {
    set@.map(|id: String| id@)
}

/// `HashSet::contains` tells whether a set of ids holds the given text. The contract that
/// `vstd` gives it says nothing of strings.
#[verifier::external_body]
pub(crate) fn set_contains(set: &HashSet<String>, id: &str) -> (found: bool)
    ensures
        found == ids_of(*set).contains(id@),
{
    set.contains(id)
}

/// `HashSet::clone` copies a set of ids.
#[verifier::external_body]
pub(crate) fn set_clone(set: &HashSet<String>) -> (copy: HashSet<String>)
    ensures
        ids_of(copy) == ids_of(*set),
{
    set.clone()
}

} // verus!
