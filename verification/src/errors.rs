//! The failures the engine can report. Every one of them is fatal to the
//! run that raised it: the engine never recovers or retries.

use vstd::prelude::*;

verus! {

/// A failure raised while loading catalog data or computing probabilities.
#[derive(Debug)]
pub enum EngineError {
    /// A rarity literal in catalog data is not in the closed enumeration.
    /// Carries the offending literal and the accepted literals.
    UnknownRarity { literal: String, accepted: Vec<String> },
    /// An expansion references an offering-rate table name with no match
    /// among the loaded tables.
    UnresolvedOfferingTable { table_name: String },
    /// The probability calculator was invoked with no cards.
    EmptyCardPool,
    /// An offering-rate table assigns a slot more than the whole probability
    /// mass: its rates for one draw slot sum to more than one.
    RateMassTooLarge,
}

} // verus!
