//! Which operations of a document are generated.

use crate::id_set::{ids_of, set_clone, set_contains};
use std::collections::HashSet;
use vstd::prelude::*;

verus! {

/// Which operations are generated, by the ids that are computed for them.
#[derive(Debug, Clone)]
pub struct OperationFilter {
    only: Option<HashSet<String>>,
    excluded: Option<HashSet<String>>,
}

/// The content of an [`OperationFilter`].
pub struct OperationFilterView {
    /// Where present, the ids that are generated.
    pub only: Option<Set<Seq<char>>>,
    /// Where present, the ids that are not generated.
    pub excluded: Option<Set<Seq<char>>>,
}

impl OperationFilterView {
    /// Whether an operation with this id is generated.
    pub open spec fn accepts(self, id: Seq<char>) -> bool {
        &&& self.only matches Some(only) ==> only.contains(id)
        &&& self.excluded matches Some(excluded) ==> !excluded.contains(id)
    }
}

/// The ids in a set that may be absent.
pub open spec fn optional_ids(set: Option<HashSet<String>>) -> Option<Set<Seq<char>>> {
    match set {
        Some(ids) => Some(ids_of(ids)),
        None => None,
    }
}

/// The ids in a borrowed set that may be absent.
pub open spec fn borrowed_ids(set: Option<&HashSet<String>>) -> Option<Set<Seq<char>>> {
    match set {
        Some(ids) => Some(ids_of(*ids)),
        None => None,
    }
}

impl View for OperationFilter {
    type V = OperationFilterView;

    closed spec fn view(&self) -> OperationFilterView {
        OperationFilterView {
            only: optional_ids(self.only),
            excluded: optional_ids(self.excluded),
        }
    }
}

impl OperationFilter {
    /// A filter with copies of the given sets.
    #[must_use]
    pub fn new(only: Option<&HashSet<String>>, excluded: Option<&HashSet<String>>) -> (filter: Self)
        ensures
            filter@.only == borrowed_ids(only),
            filter@.excluded == borrowed_ids(excluded),
    {
        let only: Option<HashSet<String>> = match only {
            Some(ids) => Some(set_clone(ids)),
            None => None,
        };
        let excluded: Option<HashSet<String>> = match excluded {
            Some(ids) => Some(set_clone(ids)),
            None => None,
        };
        OperationFilter { only, excluded }
    }

    /// Whether an operation with this id is generated.
    #[must_use]
    pub fn accepts(&self, base_id: &str) -> (accepted: bool)
        ensures
            accepted == self@.accepts(base_id@),
    {
        if let Some(included) = &self.only {
            if !set_contains(included, base_id) {
                return false;
            }
        }
        if let Some(excluded) = &self.excluded {
            if set_contains(excluded, base_id) {
                return false;
            }
        }
        true
    }
}

impl Default for OperationFilter {
    /// A filter that accepts every operation.
    fn default() -> (filter: Self)
        ensures
            filter@.only is None,
            filter@.excluded is None,
    {
        OperationFilter { only: None, excluded: None }
    }
}

} // verus!
