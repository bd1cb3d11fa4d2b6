//! A catalog expansion: its cards, its packs and its offering-rate regime.

use vstd::prelude::*;

use crate::card::{card_in_pack, Card, CardView};

verus! {

/// One expansion of the catalog, immutable after load: its cards, the names
/// of its purchasable packs (empty means the whole expansion is one implicit
/// pack), and the name of the offering-rate table it draws with.
pub struct Expansion {
    /// The key the expansion is known by in catalog and collection data.
    pub id: String,
    /// The expansion's display name.
    pub name: String,
    /// The names of the expansion's packs, in catalog order.
    pub packs: Vec<String>,
    /// The expansion's cards, in catalog order.
    pub cards: Vec<Card>,
    /// The name of the offering-rate table the expansion draws with.
    pub offering_rate_table: String,
}

/// The cards of a pool that belong to the named pack, in pool order.
pub open spec fn pack_pool(cards: Seq<CardView>, pack_name: Seq<char>) -> Seq<CardView>
    decreases cards.len(),
{
    if cards.len() == 0 {
        Seq::empty()
    } else {
        let rest = pack_pool(cards.drop_last(), pack_name);
        if cards.last().packs.contains(pack_name) {
            rest.push(cards.last())
        } else {
            rest
        }
    }
}

/// A copy of a card, equal in every field.
pub fn clone_card(card: &Card) -> (copy: Card)
    ensures
        copy@ == card@,
{
    let packs = card.packs.clone();
    proof {
        assert(packs.deep_view() =~= card.packs.deep_view());
    }
    Card { name: card.name.clone(), number: card.number, rarity: card.rarity, packs }
}

impl Expansion {
    /// The pool a pack draws from: the expansion's cards that belong to the
    /// named pack, or all its cards when no pack is named (an expansion
    /// without sub-packs is treated as one implicit pack).
    pub fn cards_in(&self, pack_name: Option<&str>) -> (pool: Vec<Card>)
        ensures
            match pack_name {
                Some(name) => pool.deep_view() == pack_pool(self.cards.deep_view(), name@),
                None => pool.deep_view() == self.cards.deep_view(),
            },
    {
        let ghost cards_dv = self.cards.deep_view();
        let mut pool: Vec<Card> = Vec::new();
        let mut i: usize = 0;
        match pack_name {
            Some(name) => {
                proof {
                    assert(cards_dv.take(0) =~= Seq::<CardView>::empty());
                }
                while i < self.cards.len()
                    invariant
                        i <= self.cards@.len(),
                        cards_dv == self.cards.deep_view(),
                        cards_dv.len() == self.cards@.len(),
                        pool.deep_view() == pack_pool(cards_dv.take(i as int), name@),
                    decreases self.cards@.len() - i,
                {
                    let card = &self.cards[i];
                    proof {
                        assert(cards_dv[i as int] == self.cards@[i as int].deep_view());
                        assert(cards_dv.take(i + 1).drop_last() =~= cards_dv.take(i as int));
                        assert(cards_dv.take(i + 1).last() == cards_dv[i as int]);
                    }
                    if card_in_pack(card, name) {
                        let ghost earlier = pool.deep_view();
                        pool.push(clone_card(card));
                        proof {
                            assert(pool.deep_view() =~= earlier.push(cards_dv[i as int]));
                        }
                    }
                    i = i + 1;
                }
                proof {
                    assert(cards_dv.take(cards_dv.len() as int) =~= cards_dv);
                }
            },
            None => {
                while i < self.cards.len()
                    invariant
                        i <= self.cards@.len(),
                        cards_dv == self.cards.deep_view(),
                        cards_dv.len() == self.cards@.len(),
                        pool.deep_view() == cards_dv.take(i as int),
                    decreases self.cards@.len() - i,
                {
                    let card = &self.cards[i];
                    let ghost earlier = pool.deep_view();
                    pool.push(clone_card(card));
                    proof {
                        assert(cards_dv[i as int] == self.cards@[i as int].deep_view());
                        assert(pool.deep_view() =~= earlier.push(cards_dv[i as int]));
                        assert(cards_dv.take(i + 1) =~= cards_dv.take(i as int).push(
                            cards_dv[i as int],
                        ));
                    }
                    i = i + 1;
                }
                proof {
                    assert(cards_dv.take(cards_dv.len() as int) =~= cards_dv);
                }
            },
        }
        pool
    }
}

} // verus!
