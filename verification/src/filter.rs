//! The filter of a pane's table: the sensor identifiers whose rows it shows.

use std::collections::HashSet;
use vstd::prelude::*;

verus! {

broadcast use vstd::std_specs::hash::group_hash_axioms;

/// The set of identifiers that are checked in the filter of a table.
#[derive(Debug)]
pub struct Filter {
    pub identifiers: HashSet<u64>,
}

impl Filter {
    /// The identifiers that are checked.
    pub open spec fn view(&self) -> Set<u64> {
        self.identifiers@
    }

    /// A filter with no identifier checked.
    pub fn new() -> (filter: Filter)
        ensures
            filter@ == Set::<u64>::empty(),
    {
        Filter { identifiers: HashSet::new() }
    }

    /// Whether `identifier` is checked.
    pub fn contains(&self, identifier: u64) -> (checked: bool)
        ensures
            checked == self@.contains(identifier),
    {
        self.identifiers.contains(&identifier)
    }

    /// Whether the table shows the rows of `identifier`: every row while
    /// nothing is checked, else the rows of the checked identifiers.
    pub fn shows(&self, identifier: u64) -> (shown: bool)
        ensures
            shown == (self@.is_empty() || self@.contains(identifier)),
    {
        self.identifiers.is_empty() || self.identifiers.contains(&identifier)
    }

    /// Checks `identifier` if it was unchecked, unchecks it if it was
    /// checked, and tells whether it is checked now. No other identifier
    /// changes.
    pub fn toggle(&mut self, identifier: u64) -> (checked: bool)
        ensures
            checked == !old(self)@.contains(identifier),
            final(self)@ == if checked {
                old(self)@.insert(identifier)
            } else {
                old(self)@.remove(identifier)
            },
    {
        if self.identifiers.contains(&identifier) {
            self.identifiers.remove(&identifier);
            false
        } else {
            self.identifiers.insert(identifier);
            true
        }
    }

    /// Checks exactly the given identifiers.
    pub fn select_all(&mut self, identifiers: &Vec<u64>)
        ensures
            final(self)@ == identifiers@.to_set(),
    {
        self.identifiers.clear();
        let mut index: usize = 0;
        while index < identifiers.len()
            invariant
                index <= identifiers.len(),
                self@ == identifiers@.take(index as int).to_set(),
            decreases identifiers.len() - index,
        {
            self.identifiers.insert(identifiers[index]);
            proof {
                let before = identifiers@.take(index as int);
                let after = identifiers@.take(index + 1);
                assert(after == before.push(identifiers@[index as int]));
                before.lemma_push_to_set_commute(identifiers@[index as int]);
            }
            index += 1;
        }
        proof {
            assert(identifiers@.take(index as int) == identifiers@);
        }
    }

    /// Unchecks every identifier.
    pub fn unselect_all(&mut self)
        ensures
            final(self)@ == Set::<u64>::empty(),
    {
        self.identifiers.clear();
    }
}

} // verus!
