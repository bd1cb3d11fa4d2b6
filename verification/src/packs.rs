//! A collection-data pack list: the packs one catalog entry belongs to.

use vstd::prelude::*;
use vstd::string::StrSliceExecFns;

use crate::text::{joined_with, split_on};

verus! {

/// The packs named by one colon-separated list in collection data.
pub struct Packs(pub Vec<String>);

impl Packs {
    /// Parses a colon-separated list of pack names; the empty literal names
    /// no pack at all.
    pub fn from_literal(literal: &str) -> (packs: Packs)
        ensures
            literal@.len() == 0 ==> packs.0@.len() == 0,
            literal@.len() > 0 ==> {
                &&& packs.0@.len() >= 1
                &&& forall|j: int| 0 <= j < packs.0@.len() ==> !#[trigger] packs.0@[j]@.contains(
                    ':',
                )
                &&& joined_with(packs.0.deep_view(), ':') == literal@
            },
    {
        if literal.unicode_len() == 0 {
            Packs(Vec::new())
        } else {
            Packs(split_on(literal, ':'))
        }
    }
}

} // verus!
