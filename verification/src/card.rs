//! A single catalog card and the parsing of its pack-membership literal.

use vstd::prelude::*;
use vstd::string::StrSliceExecFns;

use crate::rarity::Rarity;
use crate::text::{joined_with, split_on};

verus! {

/// What a card is, mathematically.
pub ghost struct CardView {
    /// The card's display name.
    pub name: Seq<char>,
    /// The card's number, unique within its expansion.
    pub number: int,
    /// The card's rarity tier.
    pub rarity: Rarity,
    /// The names of the packs the card appears in; empty means the card
    /// belongs to no named sub-pack.
    pub packs: Seq<Seq<char>>,
}

/// One card of the catalog, immutable after load.
pub struct Card {
    /// The card's display name.
    pub name: String,
    /// The card's number, unique within its expansion.
    pub number: usize,
    /// The card's rarity tier.
    pub rarity: Rarity,
    /// The names of the packs the card appears in; empty means the card
    /// belongs to no named sub-pack.
    pub packs: Vec<String>,
}

impl View for Card {
    type V = CardView;

    open spec fn view(&self) -> CardView {
        CardView {
            name: self.name@,
            number: self.number as int,
            rarity: self.rarity,
            packs: self.packs.deep_view(),
        }
    }
}

impl DeepView for Card {
    type V = CardView;

    open spec fn deep_view(&self) -> CardView {
        self.view()
    }
}

/// Parses a card's pack-membership literal: a `|`-joined list of pack names,
/// where the empty literal means the card belongs to no named sub-pack.
pub fn parse_card_packs(literal: &str) -> (packs: Vec<String>)
    ensures
        literal@.len() == 0 ==> packs@.len() == 0,
        literal@.len() > 0 ==> {
            &&& packs@.len() >= 1
            &&& forall|j: int| 0 <= j < packs@.len() ==> !#[trigger] packs@[j]@.contains('|')
            &&& joined_with(packs.deep_view(), '|') == literal@
        },
{
    if literal.unicode_len() == 0 {
        Vec::new()
    } else {
        split_on(literal, '|')
    }
}

/// Whether one of a card's packs has the given name.
pub fn card_in_pack(card: &Card, pack_name: &str) -> (present: bool)
    ensures
        present == card@.packs.contains(pack_name@),
{
    let mut j: usize = 0;
    while j < card.packs.len()
        invariant
            j <= card.packs@.len(),
            forall|k: int| 0 <= k < j ==> card.packs@[k]@ != pack_name@,
        decreases card.packs@.len() - j,
    {
        if crate::text::str_eq(card.packs[j].as_str(), pack_name) {
            proof {
                assert(card@.packs[j as int] == pack_name@);
            }
            return true;
        }
        j = j + 1;
    }
    proof {
        assert forall|k: int| 0 <= k < card@.packs.len() implies card@.packs[k] != pack_name@ by {
            assert(card.packs@[k]@ != pack_name@);
        }
    }
    false
}

} // verus!
