//! The player's record of owned cards, keyed by expansion id.

use vstd::prelude::*;

use crate::text::str_eq;

verus! {

/// The owned card numbers of one expansion.
pub struct CollectionEntry {
    /// The id of the expansion the numbers belong to.
    pub expansion_id: String,
    /// The owned card numbers, scoped to that expansion's number space.
    pub card_numbers: Vec<usize>,
}

/// A player's collection: for each recorded expansion, the set of owned card
/// numbers. A number that is not recorded is not owned; numbers that name no
/// catalog card are simply ignored.
pub struct Collection(pub Vec<CollectionEntry>);

/// The set of numbers a list of card numbers holds.
pub open spec fn number_set(numbers: Seq<usize>) -> Set<int> {
    Set::new(|x: int| exists|j: int| 0 <= j < numbers.len() && numbers[j] as int == x)
}

/// Whether a card number is among the listed numbers.
pub fn contains_number(numbers: &Vec<usize>, number: usize) -> (present: bool)
    ensures
        present == number_set(numbers@).contains(number as int),
{
    let mut j: usize = 0;
    while j < numbers.len()
        invariant
            j <= numbers@.len(),
            forall|k: int| 0 <= k < j ==> numbers@[k] != number,
        decreases numbers@.len() - j,
    {
        if numbers[j] == number {
            return true;
        }
        j = j + 1;
    }
    false
}

impl Collection {
    /// The recorded entries, in record order.
    pub open spec fn entries(self) -> Seq<CollectionEntry> {
        self.0@
    }

    /// The position of the first entry recorded for an expansion id, if any.
    pub open spec fn spec_entry_index_for(self, expansion_id: Seq<char>) -> Option<int> {
        if exists|j: int|
            0 <= j < self.entries().len() && self.entries()[j].expansion_id@ == expansion_id {
            Some(
                choose|j: int|
                    #![auto]
                    0 <= j < self.entries().len() && self.entries()[j].expansion_id@ == expansion_id
                        && forall|k: int|
                        0 <= k < j ==> self.entries()[k].expansion_id@ != expansion_id,
            )
        } else {
            None
        }
    }

    /// The owned card numbers recorded for an expansion: those of the first
    /// entry with the expansion's id, or nothing if no entry has it.
    pub fn numbers_for(&self, expansion_id: &str) -> (found: Option<&Vec<usize>>)
        ensures
            match found {
                Some(numbers) => {
                    &&& self.spec_entry_index_for(expansion_id@) matches Some(j)
                    &&& (self.spec_entry_index_for(expansion_id@) matches Some(j)
                        ==> numbers@ == self.entries()[j].card_numbers@)
                },
                None => {
                    &&& self.spec_entry_index_for(expansion_id@) is None
                    &&& forall|j: int|
                        0 <= j < self.entries().len()
                            ==> #[trigger] self.entries()[j].expansion_id@ != expansion_id@
                },
            },
    {
        let mut j: usize = 0;
        while j < self.0.len()
            invariant
                j <= self.entries().len(),
                forall|k: int|
                    0 <= k < j ==> #[trigger] self.entries()[k].expansion_id@ != expansion_id@,
            decreases self.entries().len() - j,
        {
            if str_eq(self.0[j].expansion_id.as_str(), expansion_id) {
                return Some(&self.0[j].card_numbers);
            }
            j = j + 1;
        }
        None
    }
}

} // verus!
