//! The closed set of card rarity tiers and its symbolic string encoding.

use vstd::prelude::*;
use vstd::string::StringExecFns;

use crate::errors::EngineError;
use crate::text::str_eq;

verus! {

/// How many rarity tiers there are.
pub const RARITY_COUNT: usize = 8;

/// A card's rarity tier, ordered from most common to rarest.
#[derive(Debug, Clone, Copy, PartialEq, Eq, PartialOrd, Ord, Hash, Structural)]
pub enum Rarity {
    OneDiamond,
    TwoDiamonds,
    ThreeDiamonds,
    FourDiamonds,
    OneStar,
    TwoStars,
    ThreeStars,
    Crown,
}

impl Rarity {
    /// The position of this tier in the common-to-rare order.
    pub open spec fn spec_index(self) -> int {
        match self {
            Rarity::OneDiamond => 0,
            Rarity::TwoDiamonds => 1,
            Rarity::ThreeDiamonds => 2,
            Rarity::FourDiamonds => 3,
            Rarity::OneStar => 4,
            Rarity::TwoStars => 5,
            Rarity::ThreeStars => 6,
            Rarity::Crown => 7,
        }
    }

    /// The position of this tier in the common-to-rare order.
    pub fn index(self) -> (i: usize)
        ensures
            i == self.spec_index(),
            i < RARITY_COUNT,
    {
        match self {
            Rarity::OneDiamond => 0,
            Rarity::TwoDiamonds => 1,
            Rarity::ThreeDiamonds => 2,
            Rarity::FourDiamonds => 3,
            Rarity::OneStar => 4,
            Rarity::TwoStars => 5,
            Rarity::ThreeStars => 6,
            Rarity::Crown => 7,
        }
    }

    /// The tier at a given position in the common-to-rare order.
    pub open spec fn spec_from_index(i: int) -> Rarity {
        if i == 0 {
            Rarity::OneDiamond
        } else if i == 1 {
            Rarity::TwoDiamonds
        } else if i == 2 {
            Rarity::ThreeDiamonds
        } else if i == 3 {
            Rarity::FourDiamonds
        } else if i == 4 {
            Rarity::OneStar
        } else if i == 5 {
            Rarity::TwoStars
        } else if i == 6 {
            Rarity::ThreeStars
        } else {
            Rarity::Crown
        }
    }

    /// The tier at a given position in the common-to-rare order.
    pub fn from_index(i: usize) -> (r: Rarity)
        requires
            i < RARITY_COUNT,
        ensures
            r == Rarity::spec_from_index(i as int),
            r.spec_index() == i,
    {
        if i == 0 {
            Rarity::OneDiamond
        } else if i == 1 {
            Rarity::TwoDiamonds
        } else if i == 2 {
            Rarity::ThreeDiamonds
        } else if i == 3 {
            Rarity::FourDiamonds
        } else if i == 4 {
            Rarity::OneStar
        } else if i == 5 {
            Rarity::TwoStars
        } else if i == 6 {
            Rarity::ThreeStars
        } else {
            Rarity::Crown
        }
    }
}

/// Every tier is the tier of its own index.
pub proof fn lemma_rarity_index_bijective(r: Rarity)
    ensures
        0 <= r.spec_index() < RARITY_COUNT,
        Rarity::spec_from_index(r.spec_index()) == r,
{
}

impl Rarity {
    /// The symbolic literal that encodes this tier in catalog data.
    pub open spec fn literal(self) -> Seq<char> {
        match self {
            Rarity::OneDiamond => "\u{2662}"@,
            Rarity::TwoDiamonds => "\u{2662}\u{2662}"@,
            Rarity::ThreeDiamonds => "\u{2662}\u{2662}\u{2662}"@,
            Rarity::FourDiamonds => "\u{2662}\u{2662}\u{2662}\u{2662}"@,
            Rarity::OneStar => "\u{2606}"@,
            Rarity::TwoStars => "\u{2606}\u{2606}"@,
            Rarity::ThreeStars => "\u{2606}\u{2606}\u{2606}"@,
            Rarity::Crown => "\u{2655}"@,
        }
    }

    /// The symbolic literal that encodes this tier in catalog data.
    pub fn to_literal(self) -> (s: &'static str)
        ensures
            s@ == self.literal(),
    {
        match self {
            Rarity::OneDiamond => "\u{2662}",
            Rarity::TwoDiamonds => "\u{2662}\u{2662}",
            Rarity::ThreeDiamonds => "\u{2662}\u{2662}\u{2662}",
            Rarity::FourDiamonds => "\u{2662}\u{2662}\u{2662}\u{2662}",
            Rarity::OneStar => "\u{2606}",
            Rarity::TwoStars => "\u{2606}\u{2606}",
            Rarity::ThreeStars => "\u{2606}\u{2606}\u{2606}",
            Rarity::Crown => "\u{2655}",
        }
    }

    /// The literals of all tiers, in common-to-rare order.
    pub open spec fn all_literals() -> Seq<Seq<char>> {
        Seq::new(RARITY_COUNT as nat, |i: int| Rarity::spec_from_index(i).literal())
    }

    /// The accepted rarity literals, in common-to-rare order.
    pub fn accepted_literals() -> (v: Vec<String>)
        ensures
            v.deep_view() == Rarity::all_literals(),
    {
        let mut v: Vec<String> = Vec::new();
        let mut i: usize = 0;
        while i < RARITY_COUNT
            invariant
                i <= RARITY_COUNT,
                v@.len() == i as int,
                forall|j: int| 0 <= j < i ==> v@[j]@ == Rarity::spec_from_index(j).literal(),
            decreases RARITY_COUNT - i,
        {
            let r = Rarity::from_index(i);
            v.push(String::from_str(r.to_literal()));
            i = i + 1;
        }
        proof {
            assert(v.deep_view() =~= Rarity::all_literals());
        }
        v
    }

    /// Decodes a rarity literal. An unrecognized literal is a hard error
    /// carrying the offending string and the set of accepted literals.
    pub fn from_literal(s: &str) -> (r: Result<Rarity, EngineError>)
        ensures
            match r {
                Ok(rarity) => s@ == rarity.literal(),
                Err(e) => {
                    &&& forall|rarity: Rarity| s@ != rarity.literal()
                    &&& e matches EngineError::UnknownRarity { literal, accepted }
                    &&& (e matches EngineError::UnknownRarity { literal, accepted } ==> literal@
                        == s@ && accepted.deep_view() == Rarity::all_literals())
                },
            },
    {
        let mut i: usize = 0;
        while i < RARITY_COUNT
            invariant
                i <= RARITY_COUNT,
                forall|j: int| 0 <= j < i ==> s@ != Rarity::spec_from_index(j).literal(),
            decreases RARITY_COUNT - i,
        {
            let candidate = Rarity::from_index(i);
            if str_eq(s, candidate.to_literal()) {
                return Ok(candidate);
            }
            i = i + 1;
        }
        proof {
            assert forall|rarity: Rarity| s@ != rarity.literal() by {
                lemma_rarity_index_bijective(rarity);
            }
        }
        Err(
            EngineError::UnknownRarity {
                literal: String::from_str(s),
                accepted: Rarity::accepted_literals(),
            },
        )
    }
}

/// Distinct tiers have distinct literals.
pub proof fn lemma_rarity_literal_injective(a: Rarity, b: Rarity)
    ensures
        a.literal() == b.literal() ==> a == b,
{
    lemma_literal_shape(a);
    lemma_literal_shape(b);
    if a.literal() == b.literal() && a != b {
        assert(a.literal()[0] == b.literal()[0]);
        assert(a.literal().len() == b.literal().len());
        assert(false);
    }
}

/// The length and leading character of each tier's literal.
pub proof fn lemma_literal_shape(r: Rarity)
    ensures
        1 <= r.literal().len() <= 4,
        r matches Rarity::OneDiamond ==> r.literal().len() == 1 && r.literal()[0] == '\u{2662}',
        r matches Rarity::TwoDiamonds ==> r.literal().len() == 2 && r.literal()[0] == '\u{2662}',
        r matches Rarity::ThreeDiamonds ==> r.literal().len() == 3 && r.literal()[0] == '\u{2662}',
        r matches Rarity::FourDiamonds ==> r.literal().len() == 4 && r.literal()[0] == '\u{2662}',
        r matches Rarity::OneStar ==> r.literal().len() == 1 && r.literal()[0] == '\u{2606}',
        r matches Rarity::TwoStars ==> r.literal().len() == 2 && r.literal()[0] == '\u{2606}',
        r matches Rarity::ThreeStars ==> r.literal().len() == 3 && r.literal()[0] == '\u{2606}',
        r matches Rarity::Crown ==> r.literal().len() == 1 && r.literal()[0] == '\u{2655}',
{
    reveal_strlit("\u{2662}");
    reveal_strlit("\u{2662}\u{2662}");
    reveal_strlit("\u{2662}\u{2662}\u{2662}");
    reveal_strlit("\u{2662}\u{2662}\u{2662}\u{2662}");
    reveal_strlit("\u{2606}");
    reveal_strlit("\u{2606}\u{2606}");
    reveal_strlit("\u{2606}\u{2606}\u{2606}");
    reveal_strlit("\u{2655}");
}

} // verus!
